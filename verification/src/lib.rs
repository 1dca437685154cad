//! Network bootstrap and service discovery for a small device.
//!
//! The crate has two halves. The join half decides how a device associates
//! with a wireless access point: a security-mode mapper, a bounded retry
//! sequencer, and an address wait that polls the network stack until an
//! address is assigned. The discovery half is an mDNS responder: it parses
//! multicast DNS queries from raw datagram bytes and synthesizes answer
//! records (PTR, SRV, TXT, A, AAAA) for an advertised service.
//!
//! All I/O — the radio link, the network stack, the UDP socket — stays with
//! the caller. The library works on plain values: the sequencer consumes the
//! outcomes the link and stack reported, and the responder maps one inbound
//! datagram to at most one outbound datagram.

pub mod address;
pub mod answers;
pub mod errors;
pub mod query;
pub mod responder;
pub mod security;
pub mod sequencer;
pub mod wire;
