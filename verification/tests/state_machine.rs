use trust::tcp::{Connection, RecvSequenceSpace, SendSequenceSpace, State};
use trust::wire::{Ipv4Template, TcpTemplate};

const PEER: [u8; 4] = [10, 0, 0, 1];
const LOCAL: [u8; 4] = [10, 0, 0, 2];
const PEER_PORT: u16 = 5678;
const LOCAL_PORT: u16 = 1234;

fn parse_seg(d: &[u8]) -> (etherparse::Ipv4HeaderSlice, etherparse::TcpHeaderSlice) {
    let ip = etherparse::Ipv4HeaderSlice::from_slice(d).expect("ipv4 parse");
    let tcp = etherparse::TcpHeaderSlice::from_slice(&d[ip.slice().len()..]).expect("tcp parse");
    (ip, tcp)
}

fn open_passive() -> Connection {
    let (c, _d) = Connection::accept(PEER, PEER_PORT, LOCAL, LOCAL_PORT, 1000, 1024, true).unwrap();
    c
}

fn established() -> Connection {
    // the connection as it stands after the handshake, before the
    // spontaneous close has fired
    Connection {
        state: State::Estab,
        send: SendSequenceSpace {
            una: 1,
            nxt: 1,
            wnd: 1024,
            up: false,
            w1l: 0,
            w2l: 0,
            iss: 0,
        },
        recv: RecvSequenceSpace {
            nxt: 1001,
            wnd: 10,
            up: false,
            iss: 1000,
        },
        ip: Ipv4Template {
            source: LOCAL,
            destination: PEER,
            ttl: 64,
            protocol: 6,
            payload_len: 20,
        },
        tcp: TcpTemplate {
            source_port: LOCAL_PORT,
            destination_port: PEER_PORT,
            sequence_number: 0,
            acknowledgment_number: 1001,
            window_size: 10,
            checksum: 0,
            syn: false,
            ack: true,
            fin: false,
            rst: false,
        },
    }
}

#[test]
fn passive_open_completes() {
    let (mut c, d) = Connection::accept(PEER, PEER_PORT, LOCAL, LOCAL_PORT, 1000, 1024, true).unwrap();
    let (_ip, tcp) = parse_seg(&d);
    assert!(tcp.syn());
    assert!(tcp.ack());
    assert_eq!(tcp.sequence_number(), 0);
    assert_eq!(tcp.acknowledgment_number(), 1001);
    assert_eq!(c.state, State::SynRecvd);
    assert_eq!(c.send.nxt, 1);
    assert_eq!(c.recv.nxt, 1001);

    // third leg of the handshake: established, then the spontaneous close
    let out = c.on_packet(1001, 1, true, false, false, 0);
    assert_eq!(c.state, State::FinWait1);
    assert_eq!(out.len(), 1);
    let (_ip2, t2) = parse_seg(&out[0]);
    assert!(t2.fin());
    assert!(t2.ack());
    assert!(!t2.syn());
    assert_eq!(t2.sequence_number(), 1);
    assert_eq!(t2.acknowledgment_number(), 1001);
    assert_eq!(c.send.nxt, 2);
}

#[test]
fn local_fin_acked() {
    let mut c = open_passive();
    c.on_packet(1001, 1, true, false, false, 0);
    let out = c.on_packet(1001, 2, true, false, false, 0);
    assert_eq!(c.send.una, 2);
    assert_eq!(c.state, State::FinWait2);
    assert!(out.is_empty());
}

#[test]
fn peer_fin_after_local_fin_acked() {
    let mut c = open_passive();
    c.on_packet(1001, 1, true, false, false, 0);
    c.on_packet(1001, 2, true, false, false, 0);
    let out = c.on_packet(1001, 2, true, false, true, 0);
    assert_eq!(c.state, State::TimeWait);
    assert_eq!(out.len(), 1);
    let (_ip, tcp) = parse_seg(&out[0]);
    assert!(tcp.ack());
    assert!(!tcp.fin());
    assert_eq!(tcp.sequence_number(), 2);
    assert_eq!(tcp.acknowledgment_number(), 1002);
    assert_eq!(c.recv.nxt, 1002);
}

#[test]
fn out_of_window_segment_on_established() {
    let mut c = established();
    let out = c.on_packet(2000, 1, true, false, false, 0);
    assert_eq!(c.state, State::Estab);
    assert_eq!(c.recv.nxt, 1001);
    assert_eq!(out.len(), 1);
    let (_ip, tcp) = parse_seg(&out[0]);
    assert!(tcp.ack());
    assert!(!tcp.syn());
    assert!(!tcp.fin());
    assert_eq!(tcp.sequence_number(), 1);
    assert_eq!(tcp.acknowledgment_number(), 1001);
}

#[test]
fn zero_window_probe_with_wrong_sequence() {
    let mut c = established();
    c.recv.wnd = 0;
    let out = c.on_packet(1005, 1, true, false, false, 0);
    assert_eq!(c.state, State::Estab);
    assert_eq!(c.recv.nxt, 1001);
    assert_eq!(out.len(), 1);
    let (_ip, tcp) = parse_seg(&out[0]);
    assert!(tcp.ack());
    assert_eq!(tcp.sequence_number(), 1);
    assert_eq!(tcp.acknowledgment_number(), 1001);
}

#[test]
fn syn_with_no_prior_record_wraps() {
    let (c, d) = Connection::accept(PEER, PEER_PORT, LOCAL, LOCAL_PORT, 4_294_967_290, 64, true).unwrap();
    let (_ip, tcp) = parse_seg(&d);
    assert!(tcp.syn());
    assert!(tcp.ack());
    assert_eq!(tcp.sequence_number(), 0);
    assert_eq!(tcp.acknowledgment_number(), 4_294_967_291);
    assert_eq!(c.state, State::SynRecvd);
    assert_eq!(c.recv.nxt, 4_294_967_291);
    assert_eq!(c.recv.iss, 4_294_967_290);
}

#[test]
fn non_syn_creates_no_record() {
    assert!(Connection::accept(PEER, PEER_PORT, LOCAL, LOCAL_PORT, 1000, 64, false).is_none());
}

#[test]
fn ack_bit_missing_drops_segment() {
    let mut c = established();
    // acceptable FIN without ACK: RCV.NXT moves, nothing is sent, no close
    let out = c.on_packet(1001, 0, false, false, true, 0);
    assert!(out.is_empty());
    assert_eq!(c.state, State::Estab);
    assert_eq!(c.recv.nxt, 1002);
}

#[test]
fn invalid_handshake_ack_stays_syn_received() {
    let mut c = open_passive();
    let out = c.on_packet(1001, 500, true, false, false, 0);
    assert_eq!(c.state, State::SynRecvd);
    assert!(out.is_empty());
}

#[test]
fn stale_ack_dropped_silently() {
    let mut c = established();
    c.send.una = 5;
    c.send.nxt = 9;
    // 3 is neither a duplicate of SND.UNA nor inside (SND.UNA, SND.NXT]
    let out = c.on_packet(1001, 3, true, false, true, 0);
    assert!(out.is_empty());
    assert_eq!(c.send.una, 5);
    assert_eq!(c.state, State::Estab);
}

#[test]
fn duplicate_ack_still_processes_fin() {
    let mut c = established();
    c.state = State::FinWait2;
    c.send.una = 2;
    c.send.nxt = 2;
    // the ACK merely repeats SND.UNA; the FIN must still be acknowledged
    let out = c.on_packet(1001, 2, true, false, true, 0);
    assert_eq!(c.state, State::TimeWait);
    assert_eq!(out.len(), 1);
}

#[test]
fn fin_alongside_closing_ack_emits_twice() {
    let mut c = established();
    // an ACK one past SND.NXT passes the window test; together with a FIN
    // the close and the FIN acknowledgment fire in one segment
    let out = c.on_packet(1001, 2, true, false, true, 0);
    assert_eq!(out.len(), 2);
    let (_i1, t1) = parse_seg(&out[0]);
    assert!(t1.fin());
    let (_i2, t2) = parse_seg(&out[1]);
    assert!(!t2.fin());
    assert!(t2.ack());
    assert_eq!(c.state, State::TimeWait);
}

#[test]
fn acceptability_monotone_in_window() {
    // the same one-byte segment five ahead of RCV.NXT, against two windows
    let mut narrow = established();
    narrow.recv.wnd = 3;
    let out = narrow.on_packet(1005, 1, true, false, true, 0);
    assert_eq!(out.len(), 1); // rejected: bare ACK
    assert_eq!(narrow.recv.nxt, 1001);

    let mut wide = established();
    wide.recv.wnd = 10;
    let out2 = wide.on_packet(1005, 1, true, false, true, 0);
    assert!(out2.is_empty()); // accepted; no valid close ACK processing here
    assert_eq!(wide.recv.nxt, 1006);

    let mut wider = established();
    wider.recv.wnd = 1000;
    let out3 = wider.on_packet(1005, 1, true, false, true, 0);
    assert!(out3.is_empty());
    assert_eq!(wider.recv.nxt, 1006);
}

#[test]
fn time_wait_absorbs_further_traffic() {
    let mut c = open_passive();
    c.on_packet(1001, 1, true, false, false, 0);
    c.on_packet(1001, 2, true, false, false, 0);
    c.on_packet(1001, 2, true, false, true, 0);
    assert_eq!(c.state, State::TimeWait);
    // an acceptable ACK after TIME-WAIT neither replies nor changes state
    let out = c.on_packet(1002, 2, true, false, false, 0);
    assert!(out.is_empty());
    assert_eq!(c.state, State::TimeWait);
}

#[test]
fn payload_advances_rcv_nxt() {
    let mut c = established();
    // three data bytes under a duplicate ACK: the window accepts them and
    // RCV.NXT moves past them; nothing else happens
    let out = c.on_packet(1001, 1, true, false, false, 3);
    assert!(out.is_empty());
    assert_eq!(c.recv.nxt, 1004);
    assert_eq!(c.state, State::Estab);
}

#[test]
fn between_wrapped_irreflexive() {
    assert!(!Connection::is_between_wrapped(0, 0, 10));
    assert!(!Connection::is_between_wrapped(1000, 1000, 1000));
    assert!(!Connection::is_between_wrapped(u32::MAX, u32::MAX, 5));
}

#[test]
fn between_wrapped_short_arc() {
    assert!(Connection::is_between_wrapped(10, 20, 30));
    assert!(!Connection::is_between_wrapped(10, 20, 15));
    assert!(Connection::is_between_wrapped(4_294_967_290, 2, 10));
    assert!(Connection::is_between_wrapped(4_294_967_290, 4_294_967_295, 3));
    assert!(!Connection::is_between_wrapped(4_294_967_290, 3, 2));
}

#[test]
fn synchronized_states() {
    let mut s = State::SynRecvd;
    assert!(!s.is_synchronized());
    let mut s = State::Estab;
    assert!(s.is_synchronized());
    let mut s = State::FinWait1;
    assert!(s.is_synchronized());
    let mut s = State::FinWait2;
    assert!(s.is_synchronized());
    let mut s = State::TimeWait;
    assert!(s.is_synchronized());
}
