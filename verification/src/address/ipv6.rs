//! IPv6 addresses in colon notation, with `::` for a run of zero groups and an
//! IPv4 address in dotted notation for the last two groups.

use vstd::prelude::*;
use vstd::slice::slice_subrange;

use crate::address::fields::{fields, lemma_fields_shape, split_fields};
use crate::address::ipv4::{ipv4_address, parse_ipv4};
use crate::address::numeral::{hex_group, parse_hex_group};
use crate::address::COLON;

verus! {

/// Two octets as one group of 16 bits, the first being the more significant.
pub open spec fn group_of(high: u8, low: u8) -> u16 {
    (high * 256 + low) as u16
}

/// `n` groups of zero.
pub open spec fn zero_groups(n: int) -> Seq<u16> {
    Seq::new(n as nat, |k: int| 0u16)
}

/// The groups that `parts` denote one by one, where each of them is a group.
pub open spec fn hex_groups(parts: Seq<Seq<u8>>) -> Option<Seq<u16>> {
    if forall|k: int| 0 <= k < parts.len() ==> hex_group(#[trigger] parts[k]) is Some {
        Some(Seq::new(parts.len(), |k: int| hex_group(parts[k]).unwrap()))
    } else {
        None
    }
}

/// The groups that `s` denotes, where `s` is a list of groups: either empty, or
/// groups with a `:` between one and the next. With `dotted`, the last item of a
/// list may be an IPv4 address in dotted notation, which stands for two groups.
pub open spec fn group_list(s: Seq<u8>, dotted: bool) -> Option<Seq<u16>> {
    if s.len() == 0 {
        Some(Seq::empty())
    } else {
        let parts = fields(s, COLON);
        if dotted && ipv4_address(parts.last()) is Some {
            let octets = ipv4_address(parts.last()).unwrap();
            match hex_groups(parts.drop_last()) {
                Some(groups) => Some(
                    groups.push(group_of(octets[0], octets[1])).push(
                        group_of(octets[2], octets[3]),
                    ),
                ),
                None => None,
            }
        } else {
            hex_groups(parts)
        }
    }
}

/// Where the first `::` of `s` begins, if `s` holds one.
pub open spec fn compression_start(s: Seq<u8>) -> Option<int>
    decreases s.len(),
{
    if s.len() < 2 {
        None
    } else if s[0] == COLON && s[1] == COLON {
        Some(0)
    } else {
        match compression_start(s.drop_first()) {
            Some(i) => Some(i + 1),
            None => None,
        }
    }
}

/// The eight groups that `s` denotes, where `s` is an IPv6 address.
///
/// Without `::` the address is a list of exactly eight groups. Otherwise the
/// first `::` parts a list of groups in front of it from a list behind it, of
/// at most seven groups together, and stands for the zero groups that are
/// missing between them. Only a list that ends the address may end in dotted
/// notation.
pub open spec fn ipv6_address(s: Seq<u8>) -> Option<Seq<u16>> {
    match compression_start(s) {
        None => match group_list(s, true) {
            Some(groups) => if groups.len() == 8 {
                Some(groups)
            } else {
                None
            },
            None => None,
        },
        Some(i) => match (
            group_list(s.subrange(0, i), false),
            group_list(s.subrange(i + 2, s.len() as int), true),
        ) {
            (Some(head), Some(tail)) => if head.len() + tail.len() <= 7 {
                Some(head + zero_groups(8 - head.len() - tail.len()) + tail)
            } else {
                None
            },
            _ => None,
        },
    }
}

/// The first `::` of a text begins at `i` where one begins there and none
/// begins further left; a text in which none begins at all has no `::`.
pub proof fn lemma_compression_start(s: Seq<u8>, i: int)
    requires
        0 <= i,
        forall|j: int| 0 <= j < i && j + 1 < s.len() ==> !(#[trigger] s[j] == COLON && s[j + 1] == COLON),
    ensures
        i + 1 < s.len() && s[i] == COLON && s[i + 1] == COLON ==> compression_start(s) == Some(i),
        i + 1 >= s.len() ==> compression_start(s) is None,
        compression_start(s) matches Some(at) ==> i <= at && at + 1 < s.len(),
    decreases s.len(),
{
    if s.len() >= 2 {
        let rest = s.drop_first();
        if i == 0 {
            if !(s[0] == COLON && s[1] == COLON) {
                lemma_compression_start(rest, 0);
            }
        } else {
            assert(!(s[0] == COLON && s[1] == COLON));
            assert forall|j: int| 0 <= j < i - 1 && j + 1 < rest.len() implies !(#[trigger] rest[j]
                == COLON && rest[j + 1] == COLON) by {
                assert(rest[j] == s[j + 1]);
                assert(rest[j + 1] == s[j + 2]);
            }
            lemma_compression_start(rest, i - 1);
            if i + 1 < s.len() {
                assert(rest[i - 1] == s[i]);
                assert(rest[i] == s[i + 1]);
            }
        }
    }
}

/// Where the first `::` of `text` begins, if `text` holds one.
pub fn find_compression(text: &[u8]) -> (place: Option<usize>)
    ensures
        match place {
            Some(i) => compression_start(text@) == Some(i as int) && i + 2 <= text.len(),
            None => compression_start(text@) is None,
        },
{
    let mut i: usize = 0;
    while i < text.len() && i + 1 < text.len()
        invariant
            i <= text.len(),
            forall|j: int|
                0 <= j < i && j + 1 < text@.len() ==> !(#[trigger] text@[j] == COLON && text@[j
                    + 1] == COLON),
        decreases text.len() - i,
    {
        if text[i] == COLON && text[i + 1] == COLON {
            proof {
                lemma_compression_start(text@, i as int);
            }
            return Some(i);
        }
        i += 1;
    }
    proof {
        lemma_compression_start(text@, i as int);
    }
    None
}

/// Reads `text` as a list of groups.
pub fn parse_group_list(text: &[u8], dotted: bool) -> (list: Option<Vec<u16>>)
    ensures
        match list {
            Some(groups) => group_list(text@, dotted) == Some(groups@),
            None => group_list(text@, dotted) is None,
        },
{
    if text.len() == 0 {
        let groups: Vec<u16> = Vec::new();
        assert(groups@ =~= Seq::<u16>::empty());
        return Some(groups);
    }
    let parts = split_fields(text, COLON);
    proof {
        lemma_fields_shape(text@, COLON);
    }
    let n: usize = parts.len();
    let dotted_last: Option<[u8; 4]> = if dotted {
        parse_ipv4(parts[n - 1])
    } else {
        None
    };
    let count: usize = match dotted_last {
        Some(_) => n - 1,
        None => n,
    };
    let ghost all = fields(text@, COLON);
    let ghost wanted = if dotted_last is Some {
        all.drop_last()
    } else {
        all
    };
    let mut groups: Vec<u16> = Vec::new();
    let mut k: usize = 0;
    while k < count
        invariant
            k <= count <= n,
            n == parts@.len(),
            text@.len() > 0,
            all == fields(text@, COLON),
            all.len() == n,
            dotted_last is Some <==> dotted && ipv4_address(all.last()) is Some,
            wanted == (if dotted_last is Some {
                all.drop_last()
            } else {
                all
            }),
            wanted.len() == count,
            forall|j: int| 0 <= j < count ==> wanted[j] == all[j],
            forall|j: int| 0 <= j < n ==> (#[trigger] parts@[j])@ == all[j],
            groups@.len() == k,
            forall|j: int| 0 <= j < k ==> hex_group(#[trigger] wanted[j]) == Some(groups@[j]),
        decreases count - k,
    {
        match parse_hex_group(parts[k]) {
            Some(value) => {
                groups.push(value);
            },
            None => {
                assert(hex_group(wanted[k as int]) is None);
                return None;
            },
        }
        k += 1;
    }
    proof {
        assert(hex_groups(wanted).unwrap() =~= groups@);
    }
    match dotted_last {
        Some(octets) => {
            let high: u16 = (octets[0] as u16) * 256 + (octets[1] as u16);
            let low: u16 = (octets[2] as u16) * 256 + (octets[3] as u16);
            groups.push(high);
            groups.push(low);
        },
        None => {},
    }
    Some(groups)
}

/// Reads `text` as an IPv6 address.
pub fn parse_ipv6(text: &[u8]) -> (address: Option<[u16; 8]>)
    ensures
        match address {
            Some(segments) => ipv6_address(text@) == Some(segments@),
            None => ipv6_address(text@) is None,
        },
{
    let (head, tail) = match find_compression(text) {
        None => {
            match parse_group_list(text, true) {
                Some(groups) => {
                    if groups.len() != 8 {
                        return None;
                    }
                    let empty: Vec<u16> = Vec::new();
                    (groups, empty)
                },
                None => {
                    return None;
                },
            }
        },
        Some(i) => {
            let front = parse_group_list(slice_subrange(text, 0, i), false);
            let back = parse_group_list(slice_subrange(text, i + 2, text.len()), true);
            match (front, back) {
                (Some(head), Some(tail)) => {
                    if head.len() > 7 || tail.len() > 7 - head.len() {
                        return None;
                    }
                    (head, tail)
                },
                _ => {
                    return None;
                },
            }
        },
    };
    let h: usize = head.len();
    let t: usize = tail.len();
    let ghost wanted = head@ + zero_groups(8 - h - t) + tail@;
    assert(ipv6_address(text@) == Some(wanted)) by {
        if compression_start(text@) is None {
            assert(wanted =~= head@);
        }
    }
    let mut segments: [u16; 8] = [0; 8];
    let mut k: usize = 0;
    while k < h
        invariant
            k <= h,
            h == head@.len(),
            h <= 8,
            forall|j: int| 0 <= j < k ==> segments@[j] == head@[j],
            forall|j: int| k <= j < 8 ==> segments@[j] == 0,
        decreases h - k,
    {
        segments[k] = head[k];
        k += 1;
    }
    let mut m: usize = 0;
    while m < t
        invariant
            m <= t,
            h == head@.len(),
            t == tail@.len(),
            h + t <= 8,
            forall|j: int| 0 <= j < h ==> segments@[j] == head@[j],
            forall|j: int| h <= j < 8 - t ==> segments@[j] == 0,
            forall|j: int| 0 <= j < m ==> segments@[8 - t + j] == tail@[j],
        decreases t - m,
    {
        segments[8 - t + m] = tail[m];
        m += 1;
    }
    proof {
        assert(segments@ =~= wanted);
    }
    Some(segments)
}

} // verus!
