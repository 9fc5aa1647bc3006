//! Socket addresses written out in full: an IPv4 address, `:` and a port, or an
//! IPv6 address in square brackets, `:` and a port.

use vstd::prelude::*;
use vstd::slice::slice_subrange;

use crate::address::fields::find_first;
use crate::address::ipv4::{ipv4_address, parse_ipv4};
use crate::address::ipv6::{ipv6_address, parse_ipv6};
use crate::address::numeral::{decimal_number, parse_decimal};
use crate::address::{CLOSE_BRACKET, COLON, OPEN_BRACKET, PERCENT, PLUS};
use crate::endpoint::{Destination, Endpoint};

verus! {

/// The port that `s` denotes behind a literal address: a decimal numeral no
/// greater than 65535.
pub open spec fn literal_port(s: Seq<u8>) -> Option<u16> {
    match decimal_number(s, 0xffff) {
        Some(value) => Some(value as u16),
        None => None,
    }
}

/// The port that `s` denotes behind a host name: a decimal numeral no greater
/// than 65535, which a `+` may precede.
pub open spec fn host_port(s: Seq<u8>) -> Option<u16> {
    if s.len() > 0 && s[0] == PLUS {
        literal_port(s.drop_first())
    } else {
        literal_port(s)
    }
}

/// The endpoint that `s` denotes, where `s` is an IPv4 address, `:` and a port.
pub open spec fn v4_socket(s: Seq<u8>) -> Option<Endpoint> {
    match s.index_of_first(COLON) {
        None => None,
        Some(colon) => match (
            ipv4_address(s.subrange(0, colon)),
            literal_port(s.subrange(colon + 1, s.len() as int)),
        ) {
            (Some(octets), Some(port)) => Some(Endpoint::V4 { octets, port }),
            _ => None,
        },
    }
}

/// The groups and the scope identifier that `s` denotes, where `s` is what
/// stands between the brackets: an IPv6 address, which `%` and a decimal scope
/// identifier of 32 bits may follow. Without one the scope is 0.
pub open spec fn scoped_address(s: Seq<u8>) -> Option<(Seq<u16>, u32)> {
    match s.index_of_first(PERCENT) {
        None => match ipv6_address(s) {
            Some(segments) => Some((segments, 0u32)),
            None => None,
        },
        Some(percent) => match (
            ipv6_address(s.subrange(0, percent)),
            decimal_number(s.subrange(percent + 1, s.len() as int), 0xffff_ffff),
        ) {
            (Some(segments), Some(scope)) => Some((segments, scope as u32)),
            _ => None,
        },
    }
}

/// The endpoint that `s` denotes, where `s` is `[`, an IPv6 address with or
/// without a scope, `]`, `:` and a port. The flow information is 0.
pub open spec fn v6_socket(s: Seq<u8>) -> Option<Endpoint> {
    if s.len() > 0 && s[0] == OPEN_BRACKET {
        match s.index_of_first(CLOSE_BRACKET) {
            None => None,
            Some(close) => {
                let rest = s.subrange(close + 1, s.len() as int);
                if rest.len() > 0 && rest[0] == COLON {
                    match (scoped_address(s.subrange(1, close)), literal_port(rest.drop_first())) {
                        (Some((segments, scope_id)), Some(port)) => Some(
                            Endpoint::V6 { segments, port, flowinfo: 0, scope_id },
                        ),
                        _ => None,
                    }
                } else {
                    None
                }
            },
        }
    } else {
        None
    }
}

/// The endpoint that `s` denotes, where `s` is a socket address written out in
/// full, in either form.
pub open spec fn socket_literal(s: Seq<u8>) -> Option<Endpoint> {
    match v4_socket(s) {
        Some(endpoint) => Some(endpoint),
        None => v6_socket(s),
    }
}

/// Reads `text` as the port behind a literal address.
pub fn parse_port(text: &[u8]) -> (port: Option<u16>)
    ensures
        port == literal_port(text@),
{
    match parse_decimal(text, 0xffff) {
        Some(value) => Some(value as u16),
        None => None,
    }
}

/// Reads `text` as the port behind a host name.
pub fn parse_host_port(text: &[u8]) -> (port: Option<u16>)
    ensures
        port == host_port(text@),
{
    if text.len() > 0 && text[0] == PLUS {
        parse_port(slice_subrange(text, 1, text.len()))
    } else {
        parse_port(text)
    }
}

/// Reads `text` as an IPv4 address, `:` and a port.
pub fn parse_v4_socket(text: &[u8]) -> (socket: Option<Destination>)
    ensures
        match socket {
            Some(destination) => v4_socket(text@) == Some(destination@),
            None => v4_socket(text@) is None,
        },
{
    let colon: usize = match find_first(text, COLON) {
        Some(colon) => colon,
        None => {
            return None;
        },
    };
    let address = parse_ipv4(slice_subrange(text, 0, colon));
    let port = parse_port(slice_subrange(text, colon + 1, text.len()));
    match (address, port) {
        (Some(octets), Some(port)) => Some(Destination::V4 { octets, port }),
        _ => None,
    }
}

/// Reads `text` as what stands between the brackets of an IPv6 socket address.
pub fn parse_scoped_address(text: &[u8]) -> (address: Option<([u16; 8], u32)>)
    ensures
        match address {
            Some((segments, scope)) => scoped_address(text@) == Some((segments@, scope)),
            None => scoped_address(text@) is None,
        },
{
    match find_first(text, PERCENT) {
        None => match parse_ipv6(text) {
            Some(segments) => Some((segments, 0)),
            None => None,
        },
        Some(percent) => {
            let address = parse_ipv6(slice_subrange(text, 0, percent));
            let scope = parse_decimal(slice_subrange(text, percent + 1, text.len()), 0xffff_ffff);
            match (address, scope) {
                (Some(segments), Some(scope)) => Some((segments, scope)),
                _ => None,
            }
        },
    }
}

/// Reads `text` as a bracketed IPv6 address, `:` and a port.
pub fn parse_v6_socket(text: &[u8]) -> (socket: Option<Destination>)
    ensures
        match socket {
            Some(destination) => v6_socket(text@) == Some(destination@),
            None => v6_socket(text@) is None,
        },
{
    if text.len() == 0 || text[0] != OPEN_BRACKET {
        return None;
    }
    let close: usize = match find_first(text, CLOSE_BRACKET) {
        Some(close) => close,
        None => {
            return None;
        },
    };
    let rest = slice_subrange(text, close + 1, text.len());
    if rest.len() == 0 || rest[0] != COLON {
        return None;
    }
    let address = parse_scoped_address(slice_subrange(text, 1, close));
    let port = parse_port(slice_subrange(rest, 1, rest.len()));
    match (address, port) {
        (Some((segments, scope_id)), Some(port)) => Some(
            Destination::V6 { segments, port, flowinfo: 0, scope_id },
        ),
        _ => None,
    }
}

/// Reads `text` as a socket address written out in full.
pub fn parse_socket_literal(text: &[u8]) -> (socket: Option<Destination>)
    ensures
        match socket {
            Some(destination) => socket_literal(text@) == Some(destination@),
            None => socket_literal(text@) is None,
        },
{
    match parse_v4_socket(text) {
        Some(destination) => Some(destination),
        None => parse_v6_socket(text),
    }
}

} // verus!
