//! Decimal numbers as the node's JSON carries them: text made of an
//! optional sign and at least one ASCII digit.

use vstd::prelude::*;

verus! {

/// Whether `b` is an ASCII digit.
pub open spec fn is_digit(b: u8) -> bool {
    48 <= b <= 57
}

/// Whether every byte of `d` is an ASCII digit.
pub open spec fn all_digits(d: Seq<u8>) -> bool {
    forall|i: int| 0 <= i < d.len() ==> is_digit(#[trigger] d[i])
}

/// The value of the digit `b`; 0 for another byte.
pub open spec fn digit_value(b: u8) -> nat {
    if is_digit(b) {
        (b - 48) as nat
    } else {
        0
    }
}

/// The number that the digits `d` denote in base ten.
pub open spec fn digits_value(d: Seq<u8>) -> nat
    decreases d.len(),
{
    if d.len() == 0 {
        0
    } else {
        digits_value(d.drop_last()) * 10 + digit_value(d.last())
    }
}

/// The number that `d` denotes, where `d` is one or more digits and the
/// number is at most `limit`.
pub open spec fn bounded_value(d: Seq<u8>, limit: nat) -> Option<nat> {
    if d.len() > 0 && all_digits(d) && digits_value(d) <= limit {
        Some(digits_value(d))
    } else {
        None
    }
}

/// Whether `b` starts with a minus sign.
pub open spec fn is_negative(b: Seq<u8>) -> bool {
    b.len() > 0 && b[0] == 45
}

/// Whether `b` starts with a plus sign.
pub open spec fn has_plus(b: Seq<u8>) -> bool {
    b.len() > 0 && b[0] == 43
}

/// All of `b` but its first byte.
pub open spec fn after_sign(b: Seq<u8>) -> Seq<u8> {
    b.subrange(1, b.len() as int)
}

/// The signed 32-bit number that the text `b` denotes: an optional sign,
/// `+` or `-`, then one or more digits, the value within range. `None` for
/// any other text.
pub open spec fn decimal_i32(b: Seq<u8>) -> Option<i32> {
    if is_negative(b) {
        match bounded_value(after_sign(b), 2147483648) {
            Some(v) => Some((-v) as i32),
            None => None,
        }
    } else {
        match bounded_value(if has_plus(b) { after_sign(b) } else { b }, 2147483647) {
            Some(v) => Some(v as i32),
            None => None,
        }
    }
}

/// The unsigned 64-bit number that the text `b` denotes: an optional `+`,
/// then one or more digits, the value within range. `None` for any other
/// text.
pub open spec fn decimal_u64(b: Seq<u8>) -> Option<u64> {
    match bounded_value(if has_plus(b) { after_sign(b) } else { b }, u64::MAX as nat) {
        Some(v) => Some(v as u64),
        None => None,
    }
}

/// The signed 32-bit number that the text `s` denotes, read from its
/// UTF-8 bytes.
pub open spec fn text_i32(s: Seq<char>) -> Option<i32> {
    decimal_i32(vstd::utf8::encode_utf8(s))
}

/// The unsigned 64-bit number that the text `s` denotes, read from its
/// UTF-8 bytes.
pub open spec fn text_u64(s: Seq<char>) -> Option<u64> {
    decimal_u64(vstd::utf8::encode_utf8(s))
}

/// A longer run of digits never denotes a smaller number.
pub proof fn lemma_digits_value_grows(d: Seq<u8>, i: int)
    requires
        0 <= i <= d.len(),
    ensures
        digits_value(d.take(i)) <= digits_value(d),
    decreases d.len() - i,
{
    if i == d.len() {
        assert(d.take(i) =~= d);
    } else {
        assert(d.take(i + 1).drop_last() =~= d.take(i));
        lemma_digits_value_grows(d, i + 1);
    }
}

/// Reads the digits of `bytes` from position `start` on, where they denote
/// a number of at most `limit`.
pub fn parse_digits(bytes: &[u8], start: usize, limit: u64) -> (r: Option<u64>)
    requires
        start <= bytes@.len(),
    ensures
        match r {
            Some(v) => bounded_value(bytes@.subrange(start as int, bytes@.len() as int), limit as nat)
                == Some(v as nat),
            None => bounded_value(bytes@.subrange(start as int, bytes@.len() as int), limit as nat)
                is None,
        },
{
    let n = bytes.len();
    let ghost digits = bytes@.subrange(start as int, n as int);
    if start == n {
        return None;
    }
    let mut acc: u128 = 0;
    let mut i: usize = start;
    while i < n
        invariant
            start <= i <= n,
            n == bytes@.len(),
            digits == bytes@.subrange(start as int, n as int),
            acc == digits_value(digits.take(i - start)),
            acc <= limit,
            forall|k: int| 0 <= k < i - start ==> is_digit(#[trigger] digits[k]),
        decreases n - i,
    {
        let b = bytes[i];
        assert(digits[i - start] == b);
        if !(48 <= b && b <= 57) {
            assert(!is_digit(digits[i - start]));
            return None;
        }
        proof {
            let longer = digits.take(i - start + 1);
            assert(longer.drop_last() =~= digits.take(i - start));
            assert(longer.last() == b);
            assert(digits_value(longer) == digits_value(longer.drop_last()) * 10 + digit_value(b));
            lemma_digits_value_grows(digits, i - start + 1);
        }
        acc = acc * 10 + (b - 48) as u128;
        if acc > limit as u128 {
            return None;
        }
        i += 1;
    }
    proof {
        assert(digits.take(i - start) =~= digits);
    }
    Some(acc as u64)
}

/// Reads a signed 32-bit decimal number from `bytes`.
pub fn parse_i32_bytes(bytes: &[u8]) -> (r: Option<i32>)
    ensures
        r == decimal_i32(bytes@),
{
    let n = bytes.len();
    if n > 0 && bytes[0] == 45 {
        match parse_digits(bytes, 1, 2147483648) {
            Some(v) => {
                let value: i64 = -(v as i64);
                Some(value as i32)
            },
            None => None,
        }
    } else {
        let start: usize = if n > 0 && bytes[0] == 43 { 1 } else { 0 };
        assert(bytes@.subrange(0, n as int) =~= bytes@);
        match parse_digits(bytes, start, 2147483647) {
            Some(v) => Some(v as i32),
            None => None,
        }
    }
}

/// Reads an unsigned 64-bit decimal number from `bytes`.
pub fn parse_u64_bytes(bytes: &[u8]) -> (r: Option<u64>)
    ensures
        r == decimal_u64(bytes@),
{
    let n = bytes.len();
    let start: usize = if n > 0 && bytes[0] == 43 { 1 } else { 0 };
    assert(bytes@.subrange(0, n as int) =~= bytes@);
    parse_digits(bytes, start, u64::MAX)
}

/// Reads a signed 32-bit decimal number from the text `s`.
pub fn parse_i32(s: &str) -> (r: Option<i32>)
    ensures
        r == text_i32(s@),
{
    parse_i32_bytes(s.as_bytes())
}

/// Reads an unsigned 64-bit decimal number from the text `s`.
pub fn parse_u64(s: &str) -> (r: Option<u64>)
    ensures
        r == text_u64(s@),
{
    parse_u64_bytes(s.as_bytes())
}

} // verus!
