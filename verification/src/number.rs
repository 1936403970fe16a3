//! The two integer notations of the protocol, read from raw bytes: signed
//! decimal and bare hexadecimal.

use vstd::prelude::*;

verus! {

/// `b` is one of the ASCII digits `0` to `9`.
pub open spec fn is_digit(b: u8) -> bool {
    '0' as u8 <= b <= '9' as u8
}

/// Every byte of `s` is an ASCII digit.
pub open spec fn all_digits(s: Seq<u8>) -> bool {
    forall|i: int| 0 <= i < s.len() ==> is_digit(#[trigger] s[i])
}

/// The number that a run of ASCII digits writes in base ten.
pub open spec fn digits_value(s: Seq<u8>) -> nat
    decreases s.len(),
{
    if s.len() == 0 {
        0
    } else {
        (digits_value(s.drop_last()) * 10 + (s.last() - '0' as u8)) as nat
    }
}

/// The integer that `s` writes as an optional sign followed by one or more
/// digits, or `None` where `s` is not of that form.
pub open spec fn signed_decimal(s: Seq<u8>) -> Option<int> {
    let signed = s.len() > 0 && (s[0] == '-' as u8 || s[0] == '+' as u8);
    let digits = if signed {
        s.subrange(1, s.len() as int)
    } else {
        s
    };
    if digits.len() > 0 && all_digits(digits) {
        if signed && s[0] == '-' as u8 {
            Some(-(digits_value(digits) as int))
        } else {
            Some(digits_value(digits) as int)
        }
    } else {
        None
    }
}

/// `signed_decimal`, kept only where the integer fits in an `i32`.
pub open spec fn decimal_i32(s: Seq<u8>) -> Option<i32> {
    match signed_decimal(s) {
        Some(v) => if i32::MIN <= v <= i32::MAX {
            Some(v as i32)
        } else {
            None
        },
        None => None,
    }
}

/// The value of one hexadecimal digit in either case, or `None` for any
/// other byte.
pub open spec fn hex_digit(b: u8) -> Option<nat> {
    if '0' as u8 <= b <= '9' as u8 {
        Some((b - '0' as u8) as nat)
    } else if 'a' as u8 <= b <= 'f' as u8 {
        Some((b - 'a' as u8 + 10) as nat)
    } else if 'A' as u8 <= b <= 'F' as u8 {
        Some((b - 'A' as u8 + 10) as nat)
    } else {
        None
    }
}

/// Every byte of `s` is a hexadecimal digit.
pub open spec fn all_hex(s: Seq<u8>) -> bool {
    forall|i: int| 0 <= i < s.len() ==> hex_digit(#[trigger] s[i]) is Some
}

/// The number that a run of hexadecimal digits writes.
pub open spec fn hex_value(s: Seq<u8>) -> nat
    decreases s.len(),
{
    if s.len() == 0 {
        0
    } else {
        hex_value(s.drop_last()) * 16 + hex_digit(s.last()).unwrap_or(0)
    }
}

/// The 16-bit integer that `s` writes as one or more hexadecimal digits, or
/// `None` where `s` is empty, holds another byte, or writes a larger number.
pub open spec fn hex_u16(s: Seq<u8>) -> Option<u16> {
    if s.len() > 0 && all_hex(s) && hex_value(s) <= u16::MAX {
        Some(hex_value(s) as u16)
    } else {
        None
    }
}

/// A longer run of digits never writes a smaller number than its prefix.
pub proof fn lemma_digits_value_grows(s: Seq<u8>, k: int)
    requires
        0 <= k <= s.len(),
        all_digits(s),
    ensures
        digits_value(s.take(k)) <= digits_value(s),
    decreases s.len() - k,
{
    if k == s.len() {
        assert(s.take(k) =~= s);
    } else {
        lemma_digits_value_grows(s, k + 1);
        assert(s.take(k + 1).drop_last() =~= s.take(k));
        assert(is_digit(s.take(k + 1).last()));
    }
}

/// A longer run of hexadecimal digits never writes a smaller number than its
/// prefix.
pub proof fn lemma_hex_value_grows(s: Seq<u8>, k: int)
    requires
        0 <= k <= s.len(),
    ensures
        hex_value(s.take(k)) <= hex_value(s),
    decreases s.len() - k,
{
    if k == s.len() {
        assert(s.take(k) =~= s);
    } else {
        lemma_hex_value_grows(s, k + 1);
        assert(s.take(k + 1).drop_last() =~= s.take(k));
    }
}

/// Reads the magnitude of a run of digits, giving up once it passes `limit`.
fn parse_magnitude(digits: &[u8], limit: u64) -> (r: Option<u64>)
    requires
        limit <= 0x1_0000_0000,
    ensures
        r == if digits@.len() > 0 && all_digits(digits@) && digits_value(digits@) <= limit {
            Some(digits_value(digits@) as u64)
        } else {
            None
        },
{
    if digits.len() == 0 {
        return None;
    }
    let mut acc: u64 = 0;
    let mut i: usize = 0;
    while i < digits.len()
        invariant
            0 <= i <= digits.len(),
            limit <= 0x1_0000_0000,
            all_digits(digits@.take(i as int)),
            acc == digits_value(digits@.take(i as int)),
            acc <= limit,
        decreases digits.len() - i,
    {
        let b: u8 = digits[i];
        proof {
            assert(digits@.take(i + 1).drop_last() =~= digits@.take(i as int));
            assert(digits@.take(i + 1).last() == b);
        }
        if b < '0' as u8 || b > '9' as u8 {
            assert(!all_digits(digits@)) by {
                assert(!is_digit(digits@[i as int]));
            }
            return None;
        }
        let next: u64 = acc * 10 + (b - '0' as u8) as u64;
        assert(all_digits(digits@.take(i + 1))) by {
            assert forall|j: int| 0 <= j < i + 1 implies is_digit(
                #[trigger] digits@.take(i + 1)[j],
            ) by {
                if j < i {
                    assert(digits@.take(i + 1)[j] == digits@.take(i as int)[j]);
                }
            }
        }
        if next > limit {
            proof {
                if all_digits(digits@) {
                    lemma_digits_value_grows(digits@, i + 1);
                }
            }
            return None;
        }
        acc = next;
        i += 1;
    }
    assert(digits@.take(i as int) =~= digits@);
    Some(acc)
}

/// Reads a signed decimal integer: an optional `+` or `-`, then one or more
/// digits and nothing else. Numbers outside the range of `i32` are refused.
pub fn parse_i32(text: &[u8]) -> (r: Option<i32>)
    ensures
        r == decimal_i32(text@),
{
    let n: usize = text.len();
    if n == 0 {
        return None;
    }
    let first: u8 = text[0];
    if first == '-' as u8 {
        let digits = vstd::slice::slice_subrange(text, 1, n);
        match parse_magnitude(digits, 0x8000_0000) {
            Some(m) => {
                let v: i64 = -(m as i64);
                Some(v as i32)
            },
            None => None,
        }
    } else if first == '+' as u8 {
        let digits = vstd::slice::slice_subrange(text, 1, n);
        match parse_magnitude(digits, 0x7FFF_FFFF) {
            Some(m) => Some(m as i32),
            None => None,
        }
    } else {
        match parse_magnitude(text, 0x7FFF_FFFF) {
            Some(m) => Some(m as i32),
            None => None,
        }
    }
}

/// Reads one hexadecimal digit.
fn parse_hex_digit(b: u8) -> (r: Option<u8>)
    ensures
        r matches Some(d) ==> hex_digit(b) == Some(d as nat) && d < 16,
        r is None ==> hex_digit(b) is None,
{
    if '0' as u8 <= b && b <= '9' as u8 {
        Some(b - '0' as u8)
    } else if 'a' as u8 <= b && b <= 'f' as u8 {
        Some(b - 'a' as u8 + 10)
    } else if 'A' as u8 <= b && b <= 'F' as u8 {
        Some(b - 'A' as u8 + 10)
    } else {
        None
    }
}

/// Reads a 16-bit integer written as one or more hexadecimal digits, upper
/// or lower case, with no sign and no prefix.
pub fn parse_hex_u16(text: &[u8]) -> (r: Option<u16>)
    ensures
        r == hex_u16(text@),
{
    if text.len() == 0 {
        return None;
    }
    let mut acc: u32 = 0;
    let mut i: usize = 0;
    while i < text.len()
        invariant
            0 <= i <= text.len(),
            all_hex(text@.take(i as int)),
            acc == hex_value(text@.take(i as int)),
            acc <= u16::MAX,
        decreases text.len() - i,
    {
        let b: u8 = text[i];
        proof {
            assert(text@.take(i + 1).drop_last() =~= text@.take(i as int));
            assert(text@.take(i + 1).last() == b);
        }
        match parse_hex_digit(b) {
            None => {
                assert(!all_hex(text@)) by {
                    assert(hex_digit(text@[i as int]) is None);
                }
                return None;
            },
            Some(d) => {
                let next: u32 = acc * 16 + d as u32;
                assert(all_hex(text@.take(i + 1))) by {
                    assert forall|j: int| 0 <= j < i + 1 implies hex_digit(
                        #[trigger] text@.take(i + 1)[j],
                    ) is Some by {
                        if j < i {
                            assert(text@.take(i + 1)[j] == text@.take(i as int)[j]);
                        }
                    }
                }
                if next > 0xFFFF {
                    proof {
                        lemma_hex_value_grows(text@, i + 1);
                    }
                    return None;
                }
                acc = next;
            },
        }
        i += 1;
    }
    assert(text@.take(i as int) =~= text@);
    Some(acc as u16)
}

} // verus!
