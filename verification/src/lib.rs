//! A userspace TCP endpoint for the passive-open and local-close path:
//! wraparound-correct sequence arithmetic, the RFC 793 segment acceptability
//! test, a segment emitter that builds IPv4+TCP datagrams, and the state
//! machine SYN-RECEIVED -> ESTABLISHED -> FIN-WAIT-1 -> FIN-WAIT-2 -> TIME-WAIT.
//!
//! The surrounding process owns the tunnel device: it hands each incoming
//! segment's header fields and payload length to [`tcp::Connection`] and puts
//! the returned datagrams on the wire.

pub mod tcp;
pub mod wire;
