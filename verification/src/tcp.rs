//! The per-connection TCP state machine and segment processor: sequence
//! arithmetic on the 32-bit circle, the RFC 793 four-case acceptability test,
//! the segment emitter, and the transitions of the passive open and local
//! close paths.

use vstd::prelude::*;
use vstd::slice::slice_subrange;

use crate::wire::{
    ipv4_bytes_of, ipv4_header_bytes, tcp_bytes_of, tcp_checksum, tcp_checksum_of,
    tcp_header_bytes, Ipv4Template, TcpTemplate,
};

verus! {

/// Addition on the 32-bit sequence circle. The offset may be negative; its
/// magnitude stays below one full turn at every use site.
pub open spec fn wrap_add(a: u32, n: int) -> u32 {
    if a + n > u32::MAX {
        (a + n - 0x1_0000_0000) as u32
    } else if a + n < 0 {
        (a + n + 0x1_0000_0000) as u32
    } else {
        (a + n) as u32
    }
}

/// Distance walked forward from `s` to reach `t` on the 32-bit circle.
pub open spec fn seq_dist(s: u32, t: u32) -> int {
    if t >= s {
        t - s
    } else {
        t - s + 0x1_0000_0000
    }
}

/// "x lies strictly between start and end, traversing forward from start" on
/// the 32-bit sequence circle: false when `start == x`; for `start < x`, true
/// iff `end` is not in the closed-forward interval `[start, x)`; for
/// `start > x`, true iff `x < end < start` on the unwrapped line.
pub open spec fn between(start: u32, x: u32, end: u32) -> bool {
    if start < x {
        !(start <= end && end < x)
    } else if start > x {
        x < end && end < start
    } else {
        false
    }
}

/// The segment's claim on the sequence space: payload bytes, plus one for
/// SYN and one for FIN.
pub open spec fn seg_len(data_len: int, syn: bool, fin: bool) -> int {
    data_len + (if syn { 1int } else { 0int }) + (if fin { 1int } else { 0int })
}

/// The RFC 793 four-case acceptability test of SEG.SEQ against
/// RCV.NXT/RCV.WND.
pub open spec fn acceptable(rcv_nxt: u32, rcv_wnd: u16, seqn: u32, slen: int) -> bool {
    let wend = wrap_add(rcv_nxt, rcv_wnd as int);
    if slen == 0 {
        if rcv_wnd == 0 {
            seqn == rcv_nxt
        } else {
            between(wrap_add(rcv_nxt, -1), seqn, wend)
        }
    } else {
        if rcv_wnd == 0 {
            false
        } else {
            between(wrap_add(rcv_nxt, -1), seqn, wend)
                || between(wrap_add(rcv_nxt, -1), wrap_add(seqn, slen - 1), wend)
        }
    }
}

/// Connection state on the passive-open + local-close path. CLOSED is
/// represented by the absence of a record.
#[derive(Clone, Copy, Debug, PartialEq, Eq, Structural)]
pub enum State {
    SynRecvd,
    Estab,
    FinWait1,
    FinWait2,
    TimeWait,
}

/// A state is synchronized once our SYN has been acknowledged; in
/// SYN-RECEIVED it is not.
pub open spec fn synchronized(s: State) -> bool {
    !(s is SynRecvd)
}

impl State {
    /// Whether the connection this state belongs to is synchronized.
    pub fn is_synchronized(&mut self) -> (r: bool)
        ensures
            *final(self) == *old(self),
            r == synchronized(*old(self)),
    {
        match *self {
            Self::SynRecvd => false,
            Self::Estab | Self::FinWait1 | Self::TimeWait | Self::FinWait2 => true,
        }
    }
}

/// RFC 793 send sequence space. `wnd`, `up`, `w1l` and `w2l` are carried but
/// never consulted.
#[derive(Clone, Copy, Debug, PartialEq, Eq, Structural)]
pub struct SendSequenceSpace {
    /// oldest unacknowledged sequence number
    pub una: u32,
    /// next sequence number to send
    pub nxt: u32,
    /// send window advertised by the peer
    pub wnd: u16,
    /// urgent flag
    pub up: bool,
    /// segment sequence number used for the last window update
    pub w1l: usize,
    /// segment acknowledgment number used for the last window update
    pub w2l: usize,
    /// initial send sequence number
    pub iss: u32,
}

/// RFC 793 receive sequence space. `up` is carried but never consulted.
#[derive(Clone, Copy, Debug, PartialEq, Eq, Structural)]
pub struct RecvSequenceSpace {
    /// next sequence number expected from the peer
    pub nxt: u32,
    /// receive window advertised locally
    pub wnd: u16,
    /// urgent flag
    pub up: bool,
    /// initial receive sequence number
    pub iss: u32,
}

/// The transmission control block of one connection, together with the
/// prebuilt headers the emitter rewrites on every send.
#[derive(Clone, Copy, Debug)]
pub struct Connection {
    pub state: State,
    pub send: SendSequenceSpace,
    pub recv: RecvSequenceSpace,
    pub ip: Ipv4Template,
    pub tcp: TcpTemplate,
}

/// How many payload bytes of a request fit into the send buffer beside the
/// two 20-byte headers (1500-byte buffer).
pub open spec fn payload_written(payload_len: int) -> int {
    if payload_len < 1460 {
        payload_len
    } else {
        1460
    }
}

/// The TCP template as the emitter serializes it: the connection's current
/// SND.NXT and RCV.NXT written into the sequence and acknowledgment fields.
pub open spec fn emit_tcp_template(c: Connection) -> TcpTemplate {
    TcpTemplate {
        sequence_number: c.send.nxt,
        acknowledgment_number: c.recv.nxt,
        ..c.tcp
    }
}

/// The TCP header of the emitted segment, checksum included.
pub open spec fn emitted_tcp(c: Connection, payload: Seq<u8>) -> TcpTemplate {
    let w = payload_written(payload.len() as int);
    let tpl = emit_tcp_template(c);
    TcpTemplate {
        checksum: tcp_checksum_of(tpl, c.ip.source, c.ip.destination, payload.take(w)),
        ..tpl
    }
}

/// The IPv4 header of the emitted segment: payload length set to the TCP
/// header plus the written payload bytes.
pub open spec fn emitted_ip(c: Connection, payload: Seq<u8>) -> Ipv4Template {
    Ipv4Template {
        payload_len: (20 + payload_written(payload.len() as int)) as u16,
        ..c.ip
    }
}

/// The full emitted datagram: IPv4 header, TCP header, then the written
/// prefix of the payload.
pub open spec fn written_datagram(c: Connection, payload: Seq<u8>) -> Seq<u8> {
    let w = payload_written(payload.len() as int);
    ipv4_bytes_of(emitted_ip(c, payload)) + tcp_bytes_of(emitted_tcp(c, payload)) + payload.take(w)
}

/// By how much an emission advances SND.NXT beyond the written payload: one
/// for SYN and one for FIN.
pub open spec fn emit_adv(c: Connection) -> int {
    (if c.tcp.syn { 1int } else { 0int }) + (if c.tcp.fin { 1int } else { 0int })
}

/// The connection after one emission: SND.NXT advanced by the written payload
/// plus SYN and FIN, both flags cleared in the template.
pub open spec fn after_write(c: Connection, payload: Seq<u8>) -> Connection {
    let w = payload_written(payload.len() as int);
    Connection {
        send: SendSequenceSpace { nxt: wrap_add(c.send.nxt, w + emit_adv(c)), ..c.send },
        ip: emitted_ip(c, payload),
        tcp: TcpTemplate { syn: false, fin: false, ..emitted_tcp(c, payload) },
        ..c
    }
}

/// The record that `accept` builds for an incoming SYN, before the SYN|ACK
/// is emitted: ISS pinned to 0, a local receive window of 10, addresses and
/// ports swapped into the templates.
pub open spec fn initial_connection(
    src: [u8; 4],
    src_port: u16,
    dst: [u8; 4],
    dst_port: u16,
    seqn: u32,
    peer_wnd: u16,
) -> Connection {
    Connection {
        state: State::SynRecvd,
        send: SendSequenceSpace { una: 0, nxt: 0, wnd: peer_wnd, up: false, w1l: 0, w2l: 0, iss: 0 },
        recv: RecvSequenceSpace { nxt: wrap_add(seqn, 1), wnd: 10, up: false, iss: seqn },
        ip: Ipv4Template { source: dst, destination: src, ttl: 64, protocol: 6, payload_len: 0 },
        tcp: TcpTemplate {
            source_port: dst_port,
            destination_port: src_port,
            sequence_number: 0,
            acknowledgment_number: 0,
            window_size: 10,
            checksum: 0,
            syn: true,
            ack: true,
            fin: false,
            rst: false,
        },
    }
}

/// Step 2 of segment processing: advance RCV.NXT over the accepted segment.
pub open spec fn advance_rcv(c: Connection, seqn: u32, slen: int) -> Connection {
    Connection { recv: RecvSequenceSpace { nxt: wrap_add(seqn, slen), ..c.recv }, ..c }
}

/// The handshake ACK test of SYN-RECEIVED:
/// `SND.UNA - 1` strictly before SEG.ACK strictly before `SND.NXT + 1`.
pub open spec fn ack_for_handshake(c: Connection, ackn: u32) -> bool {
    between(wrap_add(c.send.una, -1), ackn, wrap_add(c.send.nxt, 1))
}

/// Step 4: in SYN-RECEIVED a segment whose ACK passes the handshake test is
/// the third leg of the handshake and establishes the connection.
pub open spec fn handshake_step(c: Connection, ackn: u32) -> Connection {
    if c.state is SynRecvd && ack_for_handshake(c, ackn) {
        Connection { state: State::Estab, ..c }
    } else {
        c
    }
}

/// The states whose incoming ACKs move SND.UNA.
pub open spec fn ack_state(s: State) -> bool {
    s is Estab || s is FinWait1 || s is FinWait2
}

/// The acceptable-ACK test of the synchronized states:
/// SND.UNA strictly before SEG.ACK strictly before `SND.NXT + 1`.
pub open spec fn ack_valid(c: Connection, ackn: u32) -> bool {
    between(c.send.una, ackn, wrap_add(c.send.nxt, 1))
}

/// Step 5: a segment whose ACK merely repeats SND.UNA is a duplicate and is
/// ignored without ending the segment's processing; any other ACK outside
/// `(SND.UNA, SND.NXT + 1)` drops the segment silently.
pub open spec fn ack_drops_segment(c: Connection, ackn: u32) -> bool {
    ack_state(c.state) && !ack_valid(c, ackn) && ackn != c.send.una
}

/// Step 5 on a segment that is not dropped: a valid ACK moves SND.UNA.
pub open spec fn ack_step(c: Connection, ackn: u32) -> Connection {
    if ack_state(c.state) && ack_valid(c, ackn) {
        Connection { send: SendSequenceSpace { una: ackn, ..c.send }, ..c }
    } else {
        c
    }
}

/// One step's effect: the connection afterwards and the datagrams it put on
/// the wire, in order.
pub struct Step {
    pub conn: Connection,
    pub replies: Seq<Seq<u8>>,
}

/// Step 6: in ESTABLISHED the first acceptable ACK (`new_ack`, established
/// in step 5) triggers the local close: a FIN|ACK is emitted and the
/// connection moves to FIN-WAIT-1.
pub open spec fn close_step(c: Connection, new_ack: bool) -> Step {
    if new_ack && c.state is Estab {
        let cf = Connection { tcp: TcpTemplate { fin: true, ..c.tcp }, ..c };
        Step {
            conn: Connection { state: State::FinWait1, ..after_write(cf, Seq::<u8>::empty()) },
            replies: seq![written_datagram(cf, Seq::<u8>::empty())],
        }
    } else {
        Step { conn: c, replies: seq![] }
    }
}

/// Step 7: in FIN-WAIT-1, once a new acknowledgment covers everything sent,
/// the FIN included, the peer has acknowledged our FIN and the connection
/// moves to FIN-WAIT-2.
pub open spec fn finwait_step(c: Connection, new_ack: bool) -> Connection {
    if new_ack && c.state is FinWait1 && c.send.una == c.send.nxt {
        Connection { state: State::FinWait2, ..c }
    } else {
        c
    }
}

/// Step 8: a FIN arriving in FIN-WAIT-2 is acknowledged with a bare ACK and
/// the connection moves to TIME-WAIT.
pub open spec fn peer_fin_step(c: Connection, fin: bool) -> Step {
    if fin && c.state is FinWait2 {
        Step {
            conn: Connection { state: State::TimeWait, ..after_write(c, Seq::<u8>::empty()) },
            replies: seq![written_datagram(c, Seq::<u8>::empty())],
        }
    } else {
        Step { conn: c, replies: seq![] }
    }
}

/// What one incoming segment does to a connection: the RFC 793 acceptability
/// test, then RCV.NXT advance, handshake completion, SND.UNA update, the
/// spontaneous local close, FIN-WAIT progress, and the peer's FIN.
pub open spec fn process(
    c: Connection,
    seqn: u32,
    ackn: u32,
    ack: bool,
    syn: bool,
    fin: bool,
    data_len: int,
) -> Step {
    let slen = seg_len(data_len, syn, fin);
    if !acceptable(c.recv.nxt, c.recv.wnd, seqn, slen) {
        Step {
            conn: after_write(c, Seq::<u8>::empty()),
            replies: seq![written_datagram(c, Seq::<u8>::empty())],
        }
    } else {
        let c1 = advance_rcv(c, seqn, slen);
        if !ack {
            Step { conn: c1, replies: seq![] }
        } else {
            let c2 = handshake_step(c1, ackn);
            if ack_drops_segment(c2, ackn) {
                Step { conn: c2, replies: seq![] }
            } else {
                let new_ack = ack_state(c2.state) && ack_valid(c2, ackn);
                let c3 = ack_step(c2, ackn);
                let s4 = close_step(c3, new_ack);
                let c5 = finwait_step(s4.conn, new_ack);
                let s6 = peer_fin_step(c5, fin);
                Step { conn: s6.conn, replies: s4.replies + s6.replies }
            }
        }
    }
}

impl Connection {
    /// Passive open: build a record for a segment with SYN set and no prior
    /// record, and emit the SYN|ACK. A segment without SYN creates nothing.
    pub fn accept(
        src: [u8; 4],
        src_port: u16,
        dst: [u8; 4],
        dst_port: u16,
        seqn: u32,
        peer_wnd: u16,
        syn: bool,
    ) -> (r: Option<(Connection, Vec<u8>)>)
        ensures
            r is Some <==> syn,
            syn ==> ({
                let c0 = initial_connection(src, src_port, dst, dst_port, seqn, peer_wnd);
                &&& r matches Some(p)
                    && p.0 == after_write(c0, Seq::<u8>::empty())
                    && p.1@ == written_datagram(c0, Seq::<u8>::empty())
            }),
    {
        if !syn {
            // only a SYN opens a connection
            return None;
        }
        let mut c = Connection {
            state: State::SynRecvd,
            send: SendSequenceSpace {
                una: 0,
                nxt: 0,
                wnd: peer_wnd,
                up: false,
                w1l: 0,
                w2l: 0,
                iss: 0,
            },
            recv: RecvSequenceSpace { nxt: seqn.wrapping_add(1), wnd: 10, up: false, iss: seqn },
            ip: Ipv4Template { source: dst, destination: src, ttl: 64, protocol: 6, payload_len: 0 },
            tcp: TcpTemplate {
                source_port: dst_port,
                destination_port: src_port,
                sequence_number: 0,
                acknowledgment_number: 0,
                window_size: 10,
                checksum: 0,
                syn: true,
                ack: true,
                fin: false,
                rst: false,
            },
        };
        let empty: &[u8] = &[];
        proof {
            assert(c == initial_connection(src, src_port, dst, dst_port, seqn, peer_wnd));
            assert(empty@ =~= Seq::<u8>::empty());
        }
        let (d, _w) = c.write(empty);
        Some((c, d))
    }

    /// The segment emitter: write SND.NXT and RCV.NXT into the template,
    /// compute the checksum, serialize IPv4 header, TCP header and as much
    /// payload as fits beside them into a 1500-byte datagram, advance SND.NXT
    /// by the written bytes plus SYN and FIN, and clear both flags. Returns
    /// the datagram and the number of payload bytes written.
    pub fn write(&mut self, payload: &[u8]) -> (r: (Vec<u8>, usize))
        ensures
            *final(self) == after_write(*old(self), payload@),
            r.0@ == written_datagram(*old(self), payload@),
            r.1 == payload_written(payload@.len() as int),
    {
        self.tcp.sequence_number = self.send.nxt;
        self.tcp.acknowledgment_number = self.recv.nxt;
        let w: usize = if payload.len() < 1460 {
            payload.len()
        } else {
            1460
        };
        self.ip.payload_len = 20 + (w as u16);
        let body = slice_subrange(payload, 0, w);
        proof {
            assert(body@ =~= payload@.take(w as int));
        }
        self.tcp.checksum = tcp_checksum(&self.tcp, self.ip.source, self.ip.destination, body);
        let mut out = ipv4_header_bytes(&self.ip);
        let mut tcpb = tcp_header_bytes(&self.tcp);
        out.append(&mut tcpb);
        let ghost emitted = *self;
        let mut i: usize = 0;
        while i < w
            invariant
                i <= w,
                w <= payload@.len(),
                *self == emitted,
                out@ == ipv4_bytes_of(self.ip) + tcp_bytes_of(self.tcp) + payload@.take(i as int),
            decreases w - i,
        {
            out.push(payload[i]);
            proof {
                assert(payload@.take(i + 1) =~= payload@.take(i as int).push(payload@[i as int]));
            }
            i = i + 1;
        }
        self.send.nxt = self.send.nxt.wrapping_add(w as u32);
        if self.tcp.syn {
            self.send.nxt = self.send.nxt.wrapping_add(1);
            self.tcp.syn = false;
        }
        if self.tcp.fin {
            self.send.nxt = self.send.nxt.wrapping_add(1);
            self.tcp.fin = false;
        }
        (out, w)
    }

    /// RST emission: set RST and zero the sequence fields in the template and
    /// hand it to the emitter (which then overwrites sequence and
    /// acknowledgment with the connection's current counters).
    pub fn send_rst(&mut self) -> (r: Vec<u8>)
        ensures
            ({
                let cr = Connection {
                    tcp: TcpTemplate {
                        rst: true,
                        sequence_number: 0,
                        acknowledgment_number: 0,
                        ..old(self).tcp
                    },
                    ..*old(self)
                };
                &&& *final(self) == after_write(cr, Seq::<u8>::empty())
                &&& r@ == written_datagram(cr, Seq::<u8>::empty())
            }),
    {
        self.tcp.rst = true;
        self.tcp.sequence_number = 0;
        self.tcp.acknowledgment_number = 0;
        let empty: &[u8] = &[];
        proof {
            assert(empty@ =~= Seq::<u8>::empty());
        }
        let (d, _w) = self.write(empty);
        d
    }

    /// Wraparound-correct strict "between" on the 32-bit sequence circle; the
    /// single primitive behind every window and acknowledgment check.
    pub fn is_between_wrapped(start: u32, x: u32, end: u32) -> (r: bool)
        ensures
            r == between(start, x, end),
    {
        if start < x {
            !(start <= end && end < x)
        } else if start > x {
            x < end && end < start
        } else {
            false
        }
    }

    /// Process one incoming segment on an existing record: validate SEG.SEQ
    /// against the receive window (answering unacceptable segments with a
    /// bare ACK), advance RCV.NXT, complete the handshake, move SND.UNA,
    /// close spontaneously out of ESTABLISHED, and acknowledge the peer's
    /// FIN. Returns the emitted datagrams in wire order.
    pub fn on_packet(
        &mut self,
        seqn: u32,
        ackn: u32,
        ack: bool,
        syn: bool,
        fin: bool,
        data_len: usize,
    ) -> (r: Vec<Vec<u8>>)
        requires
            data_len <= 65535,
        ensures
            ({
                let s = process(*old(self), seqn, ackn, ack, syn, fin, data_len as int);
                &&& *final(self) == s.conn
                &&& r.deep_view() == s.replies
            }),
    {
        let ghost c0 = *old(self);
        let ghost s = process(c0, seqn, ackn, ack, syn, fin, data_len as int);
        let mut replies: Vec<Vec<u8>> = Vec::new();
        let empty: &[u8] = &[];
        proof {
            assert(empty@ =~= Seq::<u8>::empty());
        }

        let mut slen: u32 = data_len as u32;
        if fin {
            slen = slen + 1;
        }
        if syn {
            slen = slen + 1;
        }
        let wend = self.recv.nxt.wrapping_add(self.recv.wnd as u32);
        let okay: bool = if slen == 0 {
            if self.recv.wnd == 0 {
                seqn == self.recv.nxt
            } else {
                Self::is_between_wrapped(self.recv.nxt.wrapping_sub(1), seqn, wend)
            }
        } else {
            if self.recv.wnd == 0 {
                false
            } else {
                Self::is_between_wrapped(self.recv.nxt.wrapping_sub(1), seqn, wend)
                    || Self::is_between_wrapped(
                        self.recv.nxt.wrapping_sub(1),
                        seqn.wrapping_add(slen - 1),
                        wend,
                    )
            }
        };
        proof {
            assert(okay == acceptable(c0.recv.nxt, c0.recv.wnd, seqn, seg_len(data_len as int, syn, fin)));
        }
        if !okay {
            // unacceptable segment: answer with a bare ACK carrying the
            // current counters and stop processing
            let (d, _w) = self.write(empty);
            replies.push(d);
            proof {
                assert(replies.deep_view() =~~= s.replies);
            }
            return replies;
        }

        // TODO: RCV.NXT moves before the control-bit processing below; when a
        // later step bails out the expected sequence number has already
        // advanced.
        self.recv.nxt = seqn.wrapping_add(slen);
        let ghost c1 = advance_rcv(c0, seqn, seg_len(data_len as int, syn, fin));
        proof {
            assert(*self == c1);
        }

        if !ack {
            // the ACK bit is off: drop the segment
            proof {
                assert(replies.deep_view() =~~= s.replies);
            }
            return replies;
        }

        match self.state {
            State::SynRecvd => {
                if Self::is_between_wrapped(
                    self.send.una.wrapping_sub(1),
                    ackn,
                    self.send.nxt.wrapping_add(1),
                ) {
                    // the third leg of the three-way handshake: our SYN is
                    // acknowledged
                    self.state = State::Estab;
                } else {
                    // TODO: an invalid handshake ACK should elicit
                    // RST <SEQ=SEG.ACK><CTL=RST>
                }
            },
            _ => {},
        }
        let ghost c2 = handshake_step(c1, ackn);
        proof {
            assert(*self == c2);
        }

        let mut new_ack = false;
        match self.state {
            State::Estab | State::FinWait1 | State::FinWait2 => {
                if Self::is_between_wrapped(self.send.una, ackn, self.send.nxt.wrapping_add(1)) {
                    self.send.una = ackn;
                    new_ack = true;
                } else if ackn != self.send.una {
                    // neither a new acknowledgment nor a duplicate of
                    // SND.UNA: drop the segment silently
                    proof {
                        assert(replies.deep_view() =~~= s.replies);
                    }
                    return replies;
                }
            },
            _ => {},
        }
        let ghost c3 = ack_step(c2, ackn);
        proof {
            assert(new_ack == (ack_state(c2.state) && ack_valid(c2, ackn)));
            assert(*self == c3);
        }

        if new_ack {
            match self.state {
                State::Estab => {
                    // spontaneous local close on the first acceptable ACK:
                    // emit FIN|ACK
                    self.tcp.fin = true;
                    let (d, _w) = self.write(empty);
                    replies.push(d);
                    self.state = State::FinWait1;
                },
                _ => {},
            }
        }
        let ghost s4 = close_step(c3, ack_state(c2.state) && ack_valid(c2, ackn));
        proof {
            assert(*self == s4.conn);
        }

        if new_ack {
            match self.state {
                State::FinWait1 => {
                    if self.send.una == self.send.nxt {
                        // everything sent, the FIN included, is acknowledged
                        self.state = State::FinWait2;
                    }
                },
                _ => {},
            }
        }
        let ghost c5 = finwait_step(s4.conn, ack_state(c2.state) && ack_valid(c2, ackn));
        proof {
            assert(*self == c5);
        }

        if fin {
            match self.state {
                State::FinWait2 => {
                    // acknowledge the peer's FIN (RCV.NXT already counts it)
                    let (d, _w) = self.write(empty);
                    replies.push(d);
                    self.state = State::TimeWait;
                },
                _ => {},
            }
        }
        proof {
            assert(*self == peer_fin_step(c5, fin).conn);
            assert(replies.deep_view() =~~= s.replies);
        }
        replies
    }
}

/// Law: no sequence number lies strictly between itself and anything;
/// `between(a, a, e)` is false for every `a` and `e`.
pub proof fn lemma_between_irreflexive(a: u32, e: u32)
    ensures
        !between(a, a, e),
{
}

/// Law: three points in strict forward order on one arc of the circle
/// satisfy the between predicate: if walking forward from `s` reaches `x`
/// strictly after `s`, and `e` strictly after `x`, then `x` lies between
/// `s` and `e`.
pub proof fn lemma_between_short_arc(s: u32, x: u32, e: u32)
    requires
        0 < seq_dist(s, x),
        seq_dist(s, x) < seq_dist(s, e),
    ensures
        between(s, x, e),
{
}

/// Growing the forward distance of the right end of the window keeps a
/// member inside it.
pub proof fn lemma_between_widen(s: u32, x: u32, e: u32, e2: u32)
    requires
        between(s, x, e),
        seq_dist(s, e) <= seq_dist(s, e2),
    ensures
        between(s, x, e2),
{
}

/// Law: acceptability is monotone in the receive window: a segment
/// acceptable with window `w` stays acceptable with any window of at least
/// `w`. In particular a zero-length segment that passed the zero-window
/// test (`seqn == rcv_nxt`) passes the window test of every positive
/// window.
pub proof fn lemma_acceptable_monotone(rcv_nxt: u32, w: u16, w2: u16, seqn: u32, slen: int)
    requires
        w <= w2,
        acceptable(rcv_nxt, w, seqn, slen),
    ensures
        acceptable(rcv_nxt, w2, seqn, slen),
{
    let s = wrap_add(rcv_nxt, -1);
    let e = wrap_add(rcv_nxt, w as int);
    let e2 = wrap_add(rcv_nxt, w2 as int);
    assert(seq_dist(s, e) == 1 + w);
    assert(seq_dist(s, e2) == 1 + w2);
    if slen == 0 && w == 0 {
        if w2 > 0 {
            assert(seq_dist(s, seqn) == 1);
            lemma_between_short_arc(s, seqn, e2);
        }
    } else {
        if between(s, seqn, e) {
            lemma_between_widen(s, seqn, e, e2);
        }
        if slen > 0 && between(s, wrap_add(seqn, slen - 1), e) {
            lemma_between_widen(s, wrap_add(seqn, slen - 1), e, e2);
        }
    }
}

/// Law: over the full passive-open and local-close trace the sequence
/// numbers this side emits are contiguous, whatever the peer's initial
/// sequence number `q`: the SYN|ACK carries ISS = 0, the FIN|ACK carries
/// ISS + 1, the final acknowledgment repeats SND.NXT = ISS + 2, and SND.NXT
/// never moves past ISS + 1 (data) + 1 (FIN) with no data sent.
pub proof fn lemma_trace_contiguous(
    src: [u8; 4],
    src_port: u16,
    dst: [u8; 4],
    dst_port: u16,
    q: u32,
    peer_wnd: u16,
)
    ensures
        ({
            let c0 = initial_connection(src, src_port, dst, dst_port, q, peer_wnd);
            let c1 = after_write(c0, Seq::<u8>::empty());
            let s1 = process(c1, wrap_add(q, 1), 1, true, false, false, 0);
            let s2 = process(s1.conn, wrap_add(q, 1), 2, true, false, false, 0);
            let s3 = process(s2.conn, wrap_add(q, 1), 2, true, false, true, 0);
            // the SYN|ACK starts the range at ISS
            &&& emitted_tcp(c0, Seq::<u8>::empty()).sequence_number == 0
            &&& emitted_tcp(c0, Seq::<u8>::empty()).syn
            &&& c1.send.nxt == 1
            // the handshake ACK is accepted and the close emits the FIN at
            // ISS + 1
            &&& s1.conn.state is FinWait1
            &&& s1.replies.len() == 1
            &&& s1.conn.send.nxt == 2
            // the acknowledgment of our FIN emits nothing further
            &&& s2.conn.state is FinWait2
            &&& s2.replies.len() == 0
            // the peer's FIN is answered from SND.NXT = ISS + 2 and the
            // range closes there
            &&& s3.conn.state is TimeWait
            &&& s3.replies.len() == 1
            &&& s3.conn.send.nxt == 2
        }),
{
    let c0 = initial_connection(src, src_port, dst, dst_port, q, peer_wnd);
    let c1 = after_write(c0, Seq::<u8>::empty());
    let nxt1 = wrap_add(q, 1);
    assert(wrap_add(nxt1, -1) == q);
    assert(seq_dist(q, nxt1) == 1);
    assert(seq_dist(q, wrap_add(nxt1, 10)) == 11);
    lemma_between_short_arc(q, nxt1, wrap_add(nxt1, 10));
    assert(acceptable(c1.recv.nxt, c1.recv.wnd, nxt1, 0));
}

} // verus!
