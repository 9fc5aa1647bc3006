//! IPv4 addresses in dotted notation.

use vstd::prelude::*;

use crate::address::fields::{fields, split_fields};
use crate::address::numeral::{octet, parse_octet};
use crate::address::DOT;

verus! {

/// The four octets that `s` denotes, where `s` is an IPv4 address in dotted
/// notation: four octets with a `.` between one and the next.
pub open spec fn ipv4_address(s: Seq<u8>) -> Option<Seq<u8>> {
    let parts = fields(s, DOT);
    if parts.len() == 4 && forall|k: int| 0 <= k < 4 ==> octet(#[trigger] parts[k]) is Some {
        Some(Seq::new(4, |k: int| octet(parts[k]).unwrap()))
    } else {
        None
    }
}

/// Reads `text` as an IPv4 address in dotted notation.
pub fn parse_ipv4(text: &[u8]) -> (address: Option<[u8; 4]>)
    ensures
        match address {
            Some(octets) => ipv4_address(text@) == Some(octets@),
            None => ipv4_address(text@) is None,
        },
{
    let parts = split_fields(text, DOT);
    if parts.len() != 4 {
        return None;
    }
    let mut octets: [u8; 4] = [0; 4];
    let mut k: usize = 0;
    while k < 4
        invariant
            k <= 4,
            parts@.len() == 4,
            fields(text@, DOT).len() == 4,
            forall|j: int| 0 <= j < 4 ==> (#[trigger] parts@[j])@ == fields(text@, DOT)[j],
            forall|j: int|
                0 <= j < k ==> octet(#[trigger] fields(text@, DOT)[j]) == Some(octets@[j]),
        decreases 4 - k,
    {
        match parse_octet(parts[k]) {
            Some(value) => {
                octets[k] = value;
            },
            None => {
                assert(octet(fields(text@, DOT)[k as int]) is None);
                return None;
            },
        }
        k += 1;
    }
    proof {
        assert(ipv4_address(text@).unwrap() =~= octets@);
    }
    Some(octets)
}

} // verus!
