//! The textual forms of addresses: numerals, separated fields, IPv4 and IPv6
//! addresses, and socket addresses with a port.
//!
//! Texts are sequences of bytes. Each form has a specification function that
//! says which texts belong to it and what they denote, and a parser that is
//! proved to compute it.

use vstd::prelude::*;

pub mod fields;
pub mod ipv4;
pub mod ipv6;
pub mod numeral;
pub mod socket;

verus! {

/// `:` separates the groups of an IPv6 address, and an address from its port.
pub const COLON: u8 = 0x3a;

/// `.` separates the octets of an IPv4 address.
pub const DOT: u8 = 0x2e;

/// `[` opens an IPv6 address that a port follows.
pub const OPEN_BRACKET: u8 = 0x5b;

/// `]` closes an IPv6 address that a port follows.
pub const CLOSE_BRACKET: u8 = 0x5d;

/// `%` separates an IPv6 address from its scope identifier.
pub const PERCENT: u8 = 0x25;

/// `+` may stand in front of the port of a host name.
pub const PLUS: u8 = 0x2b;

} // verus!
