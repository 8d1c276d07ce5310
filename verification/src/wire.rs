//! Outgoing header templates and the serialization boundary.
//!
//! A connection keeps one IPv4 template and one TCP template; the emitter
//! rewrites the per-segment fields and hands the templates to etherparse to be
//! put into wire form. The bytes that etherparse produces are named by the
//! uninterpreted functions below, so every contract about an emitted datagram
//! is exact up to those names.

use vstd::prelude::*;

verus! {

/// The fields of the outgoing IPv4 header that this implementation sets.
/// Source and destination are swapped relative to the incoming SYN; the
/// payload length is rewritten on every emission.
#[derive(Clone, Copy, Debug)]
pub struct Ipv4Template {
    pub source: [u8; 4],
    pub destination: [u8; 4],
    pub ttl: u8,
    pub protocol: u8,
    pub payload_len: u16,
}

/// The fields of the outgoing TCP header that this implementation sets.
/// Ports are swapped relative to the incoming SYN; sequence, acknowledgment,
/// checksum and the SYN/FIN/RST flags are rewritten per emission.
#[derive(Clone, Copy, Debug)]
pub struct TcpTemplate {
    pub source_port: u16,
    pub destination_port: u16,
    pub sequence_number: u32,
    pub acknowledgment_number: u32,
    pub window_size: u16,
    pub checksum: u16,
    pub syn: bool,
    pub ack: bool,
    pub fin: bool,
    pub rst: bool,
}

/// The 20 serialized bytes of an IPv4 header built from the template
/// (no options; the header checksum is computed during serialization).
pub uninterp spec fn ipv4_bytes_of(t: Ipv4Template) -> Seq<u8>;

/// The 20 serialized bytes of a TCP header built from the template
/// (no options).
pub uninterp spec fn tcp_bytes_of(t: TcpTemplate) -> Seq<u8>;

/// The RFC 793/1071 TCP checksum over the IPv4 pseudo-header for the two
/// addresses, the header built from the template, and the payload.
pub uninterp spec fn tcp_checksum_of(t: TcpTemplate, src: [u8; 4], dst: [u8; 4], payload: Seq<u8>) -> u16;

/// Relies on etherparse::Ipv4Header::write, which serializes the header and
/// computes the header checksum while writing; with no options the header is
/// exactly 20 bytes. etherparse::Ipv4Header::new only rejects payload lengths
/// above 65515, and writing to a Vec cannot fail.
#[verifier::external_body]
pub(crate) fn ipv4_header_bytes(t: &Ipv4Template) -> (r: Vec<u8>)
    requires
        t.payload_len <= 65515,
    ensures
        r@ == ipv4_bytes_of(*t),
        r@.len() == 20,
{
    let h = etherparse::Ipv4Header::new(
        t.payload_len,
        t.ttl,
        etherparse::IpNumber(t.protocol),
        t.source,
        t.destination,
    )
    .unwrap();
    let mut out: Vec<u8> = Vec::new();
    h.write(&mut out).unwrap();
    out
}

/// Relies on etherparse::TcpHeader::calc_checksum_ipv4_raw: the checksum is a
/// function of the header fields, the two addresses and the payload alone,
/// and the call only rejects payloads longer than 65515 bytes.
#[verifier::external_body]
pub(crate) fn tcp_checksum(t: &TcpTemplate, src: [u8; 4], dst: [u8; 4], payload: &[u8]) -> (r: u16)
    requires
        payload@.len() <= 65515,
    ensures
        r == tcp_checksum_of(*t, src, dst, payload@),
{
    let mut h = etherparse::TcpHeader::new(t.source_port, t.destination_port, t.sequence_number, t.window_size);
    h.acknowledgment_number = t.acknowledgment_number;
    h.ack = t.ack;
    h.syn = t.syn;
    h.fin = t.fin;
    h.rst = t.rst;
    h.calc_checksum_ipv4_raw(src, dst, payload).unwrap()
}

/// Relies on etherparse::TcpHeader::write: with no options the serialized
/// header is exactly 20 bytes, a function of the header fields alone, and
/// writing to a Vec cannot fail.
#[verifier::external_body]
pub(crate) fn tcp_header_bytes(t: &TcpTemplate) -> (r: Vec<u8>)
    ensures
        r@ == tcp_bytes_of(*t),
        r@.len() == 20,
{
    let mut h = etherparse::TcpHeader::new(t.source_port, t.destination_port, t.sequence_number, t.window_size);
    h.acknowledgment_number = t.acknowledgment_number;
    h.ack = t.ack;
    h.syn = t.syn;
    h.fin = t.fin;
    h.rst = t.rst;
    h.checksum = t.checksum;
    let mut out: Vec<u8> = Vec::new();
    h.write(&mut out).unwrap();
    out
}

} // verus!
