//! Decimal and hexadecimal numerals.

use vstd::prelude::*;

verus! {

/// Whether `b` is one of the ASCII digits `0` to `9`.
pub open spec fn is_decimal_digit(b: u8) -> bool {
    0x30 <= b <= 0x39
}

/// Whether `b` is an ASCII digit or one of the letters `a` to `f`, `A` to `F`.
pub open spec fn is_hex_digit(b: u8) -> bool {
    is_decimal_digit(b) || 0x61 <= b <= 0x66 || 0x41 <= b <= 0x46
}

/// The number that the digit `b` stands for, in base ten or sixteen; 0 for a
/// byte that is no digit.
pub open spec fn digit_value(b: u8) -> nat {
    if is_decimal_digit(b) {
        (b - 0x30) as nat
    } else if 0x61 <= b <= 0x66 {
        (b - 0x61 + 10) as nat
    } else if 0x41 <= b <= 0x46 {
        (b - 0x41 + 10) as nat
    } else {
        0
    }
}

/// Whether `s` is a decimal numeral: one digit or more, and nothing else.
pub open spec fn is_decimal(s: Seq<u8>) -> bool {
    s.len() > 0 && forall|i: int| 0 <= i < s.len() ==> is_decimal_digit(#[trigger] s[i])
}

/// Whether `s` is a hexadecimal numeral: one digit or more, and nothing else.
pub open spec fn is_hex(s: Seq<u8>) -> bool {
    s.len() > 0 && forall|i: int| 0 <= i < s.len() ==> is_hex_digit(#[trigger] s[i])
}

/// The number that the digits of `s` denote in base ten, most significant
/// digit first.
pub open spec fn decimal_value(s: Seq<u8>) -> nat
    decreases s.len(),
{
    if s.len() == 0 {
        0
    } else {
        10 * decimal_value(s.drop_last()) + digit_value(s.last())
    }
}

/// The number that the digits of `s` denote in base sixteen, most significant
/// digit first.
pub open spec fn hex_value(s: Seq<u8>) -> nat
    decreases s.len(),
{
    if s.len() == 0 {
        0
    } else {
        16 * hex_value(s.drop_last()) + digit_value(s.last())
    }
}

/// The value of the decimal numeral `s` where it is at most `max`. Leading
/// zeros are allowed and the number of digits is not limited.
pub open spec fn decimal_number(s: Seq<u8>, max: nat) -> Option<nat> {
    if is_decimal(s) && decimal_value(s) <= max {
        Some(decimal_value(s))
    } else {
        None
    }
}

/// The value of `s` as one group of an IPv6 address: one to four hexadecimal
/// digits.
pub open spec fn hex_group(s: Seq<u8>) -> Option<u16> {
    if is_hex(s) && s.len() <= 4 {
        Some(hex_value(s) as u16)
    } else {
        None
    }
}

/// The value of `s` as one octet of an IPv4 address: one to three decimal
/// digits, without a leading zero in front of another digit, and at most 255.
pub open spec fn octet(s: Seq<u8>) -> Option<u8> {
    if is_decimal(s) && s.len() <= 3 && (s.len() == 1 || s[0] != 0x30) && decimal_value(s) <= 255 {
        Some(decimal_value(s) as u8)
    } else {
        None
    }
}

/// A numeral denotes at least as much as each of its prefixes.
pub proof fn lemma_decimal_value_of_prefix(s: Seq<u8>, k: int)
    requires
        0 <= k <= s.len(),
    ensures
        decimal_value(s.subrange(0, k)) <= decimal_value(s),
    decreases s.len(),
{
    if k == s.len() {
        assert(s.subrange(0, k) =~= s);
    } else {
        assert(s.drop_last().subrange(0, k) =~= s.subrange(0, k));
        lemma_decimal_value_of_prefix(s.drop_last(), k);
    }
}

/// Up to four hexadecimal digits denote a number of 16 bits.
pub proof fn lemma_hex_value_bound(s: Seq<u8>)
    requires
        s.len() <= 4,
    ensures
        hex_value(s) <= 0xffff,
{
    reveal_with_fuel(hex_value, 5);
    if s.len() >= 1 {
        assert(digit_value(s.last()) <= 15);
    }
    if s.len() >= 2 {
        assert(digit_value(s.drop_last().last()) <= 15);
    }
    if s.len() >= 3 {
        assert(digit_value(s.drop_last().drop_last().last()) <= 15);
    }
    if s.len() >= 4 {
        assert(digit_value(s.drop_last().drop_last().drop_last().last()) <= 15);
    }
}

/// Reads `text` as a decimal numeral no greater than `max`.
pub fn parse_decimal(text: &[u8], max: u32) -> (number: Option<u32>)
    ensures
        match number {
            Some(value) => decimal_number(text@, max as nat) == Some(value as nat),
            None => decimal_number(text@, max as nat) is None,
        },
{
    if text.len() == 0 {
        return None;
    }
    let mut value: u64 = 0;
    let mut i: usize = 0;
    while i < text.len()
        invariant
            i <= text.len(),
            forall|j: int| 0 <= j < i ==> is_decimal_digit(#[trigger] text@[j]),
            value == decimal_value(text@.subrange(0, i as int)),
            value <= max,
        decreases text.len() - i,
    {
        let b: u8 = text[i];
        if b < 0x30 || b > 0x39 {
            return None;
        }
        proof {
            assert(text@.subrange(0, i + 1).drop_last() =~= text@.subrange(0, i as int));
        }
        value = value * 10 + (b - 0x30) as u64;
        if value > max as u64 {
            proof {
                lemma_decimal_value_of_prefix(text@, i + 1);
            }
            return None;
        }
        i += 1;
    }
    proof {
        assert(text@.subrange(0, i as int) =~= text@);
    }
    Some(value as u32)
}

/// Reads `text` as one octet of an IPv4 address.
pub fn parse_octet(text: &[u8]) -> (number: Option<u8>)
    ensures
        number == octet(text@),
{
    if text.len() == 0 || text.len() > 3 {
        return None;
    }
    if text.len() > 1 && text[0] == 0x30 {
        return None;
    }
    match parse_decimal(text, 255) {
        Some(value) => Some(value as u8),
        None => None,
    }
}

/// Reads `text` as one group of an IPv6 address.
pub fn parse_hex_group(text: &[u8]) -> (number: Option<u16>)
    ensures
        number == hex_group(text@),
{
    if text.len() == 0 || text.len() > 4 {
        return None;
    }
    let mut value: u16 = 0;
    let mut i: usize = 0;
    while i < text.len()
        invariant
            i <= text.len() <= 4,
            forall|j: int| 0 <= j < i ==> is_hex_digit(#[trigger] text@[j]),
            value == hex_value(text@.subrange(0, i as int)),
        decreases text.len() - i,
    {
        let b: u8 = text[i];
        let digit: u16 = if 0x30 <= b && b <= 0x39 {
            (b - 0x30) as u16
        } else if 0x61 <= b && b <= 0x66 {
            (b - 0x61 + 10) as u16
        } else if 0x41 <= b && b <= 0x46 {
            (b - 0x41 + 10) as u16
        } else {
            return None;
        };
        proof {
            assert(text@.subrange(0, i + 1).drop_last() =~= text@.subrange(0, i as int));
            lemma_hex_value_bound(text@.subrange(0, i + 1));
        }
        value = value * 16 + digit;
        i += 1;
    }
    proof {
        assert(text@.subrange(0, i as int) =~= text@);
    }
    Some(value)
}

} // verus!
