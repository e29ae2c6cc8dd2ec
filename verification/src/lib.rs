//! Passive Layer-7 traffic observation: a bounds- and cycle-safe DNS
//! wire-format decoder, an IPv4 header parser, and the classifier that
//! tags datagrams, forwards decoded records downstream and registers
//! flow artifacts into per-protocol session tables.
//!
//! Every decoding and routing step carries a contract; the decoder is
//! proved to stay inside the payload, to terminate on adversarial
//! compression-pointer graphs, and to produce exactly one record per
//! counted question and answer.

use vstd::prelude::*;

pub mod classify;
pub mod dns;
pub mod ipv4;
pub mod name;
pub mod tables;
pub mod text;
pub mod types;
pub mod wire;

verus! {

/// The smallest payload that can hold a DNS header plus one byte of
/// question or answer data.
pub const MIN_DNS_PAYLOAD: usize = 13;

/// The largest question or answer count the decoder accepts.
pub const MAX_DNS_RECORD_COUNT: u16 = 512;

} // verus!
