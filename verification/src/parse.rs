//! Parsing of difficulty values from command-line text: hexadecimal with
//! a `0x` prefix, or decimal.

use vstd::prelude::*;
use vstd::string::StringSliceAdditionalSpecFns;

verus! {

/// Whether a byte is a digit of the given base (10 or 16); hexadecimal
/// accepts both letter cases.
pub open spec fn spec_is_digit(b: u8, base: int) -> bool {
    if base == 16 {
        (0x30 <= b <= 0x39) || (0x61 <= b <= 0x66) || (0x41 <= b <= 0x46)
    } else {
        0x30 <= b <= 0x39
    }
}

/// The numeric value of a digit byte.
pub open spec fn spec_digit_value(b: u8) -> int {
    if 0x30 <= b <= 0x39 {
        b - 0x30
    } else if 0x61 <= b <= 0x66 {
        b - 0x61 + 10
    } else {
        b - 0x41 + 10
    }
}

/// The numeric value of a digit string, most significant digit first.
pub open spec fn spec_digits_value(s: Seq<u8>, base: int) -> int
    decreases s.len(),
{
    if s.len() == 0 {
        0
    } else {
        spec_digits_value(s.drop_last(), base) * base + spec_digit_value(s.last())
    }
}

/// A leading plus sign, accepted before the digits, stripped.
pub open spec fn spec_strip_plus(s: Seq<u8>) -> Seq<u8> {
    if s.len() > 0 && s[0] == 0x2b {
        s.drop_first()
    } else {
        s
    }
}

/// Parse an unsigned 32-bit integer from digit bytes: an optional plus
/// sign, then at least one digit, and a value within range.
pub open spec fn spec_parse_u32(s: Seq<u8>, base: int) -> Option<u32> {
    let d = spec_strip_plus(s);
    if d.len() > 0 && (forall|k: int| 0 <= k < d.len() ==> spec_is_digit(#[trigger] d[k], base))
        && spec_digits_value(d, base) <= u32::MAX {
        Some(spec_digits_value(d, base) as u32)
    } else {
        None
    }
}

/// Whether the text begins with the hexadecimal marker `0x`.
pub open spec fn spec_has_hex_prefix(s: Seq<u8>) -> bool {
    s.len() >= 2 && s[0] == 0x30 && s[1] == 0x78
}

/// Parse a difficulty value: the digits after a `0x` prefix are read in
/// base 16, and the whole text otherwise in base 10.
pub open spec fn spec_parse_hex_or_decimal(s: Seq<u8>) -> Option<u32> {
    if spec_has_hex_prefix(s) {
        spec_parse_u32(s.skip(2), 16)
    } else {
        spec_parse_u32(s, 10)
    }
}

/// The value of a digit string is never negative.
proof fn lemma_digits_value_nonneg(s: Seq<u8>, base: int)
    requires
        base >= 1,
        forall|k: int| 0 <= k < s.len() ==> spec_digit_value(#[trigger] s[k]) >= 0,
    ensures
        spec_digits_value(s, base) >= 0,
    decreases s.len(),
{
    if s.len() > 0 {
        assert(forall|k: int|
            0 <= k < s.drop_last().len() ==> spec_digit_value(#[trigger] s.drop_last()[k]) >= 0)
            by {
            assert(forall|k: int| 0 <= k < s.drop_last().len() ==> s.drop_last()[k] == s[k]);
        }
        lemma_digits_value_nonneg(s.drop_last(), base);
        assert(spec_digits_value(s.drop_last(), base) * base >= 0) by (nonlinear_arith)
            requires
                spec_digits_value(s.drop_last(), base) >= 0,
                base >= 1,
        ;
    }
}

/// A prefix of a digit string never exceeds the whole string's value.
proof fn lemma_digits_value_prefix_le(s: Seq<u8>, base: int, j: int)
    requires
        base >= 1,
        0 <= j <= s.len(),
        forall|k: int| 0 <= k < s.len() ==> spec_digit_value(#[trigger] s[k]) >= 0,
    ensures
        spec_digits_value(s.take(j), base) <= spec_digits_value(s, base),
    decreases s.len() - j,
{
    if j == s.len() {
        assert(s.take(j) =~= s);
    } else {
        let a = spec_digits_value(s.take(j), base);
        let b = spec_digits_value(s.take(j + 1), base);
        assert(s.take(j + 1).drop_last() =~= s.take(j));
        assert(s.take(j + 1).last() == s[j]);
        assert(forall|k: int|
            0 <= k < s.take(j).len() ==> spec_digit_value(#[trigger] s.take(j)[k]) >= 0) by {
            assert(forall|k: int| 0 <= k < s.take(j).len() ==> s.take(j)[k] == s[k]);
        }
        lemma_digits_value_nonneg(s.take(j), base);
        assert(a * base >= a) by (nonlinear_arith)
            requires
                a >= 0,
                base >= 1,
        ;
        assert(b >= a);
        lemma_digits_value_prefix_le(s, base, j + 1);
    }
}

/// The numeric value of a digit byte, or absence when the byte is not a
/// digit of the base.
pub(crate) fn digit_value(b: u8, base: u32) -> (r: Option<u32>)
    requires
        base == 10 || base == 16,
    ensures
        r is Some <==> spec_is_digit(b, base as int),
        r matches Some(v) ==> v == spec_digit_value(b) && v < base,
{
    if 0x30 <= b && b <= 0x39 {
        Some((b - 0x30) as u32)
    } else if base == 16 && 0x61 <= b && b <= 0x66 {
        Some((b - 0x61) as u32 + 10)
    } else if base == 16 && 0x41 <= b && b <= 0x46 {
        Some((b - 0x41) as u32 + 10)
    } else {
        None
    }
}

/// Parse the digits of an unsigned 32-bit integer, starting at a
/// position.
#[verifier::loop_isolation(false)]
fn parse_u32_digits(bytes: &[u8], start: usize, base: u32) -> (r: Option<u32>)
    requires
        base == 10 || base == 16,
        start <= bytes@.len(),
    ensures
        r == spec_parse_u32(bytes@.skip(start as int), base as int),
{
    let ghost whole = bytes@.skip(start as int);
    let mut i = start;
    if i < bytes.len() && *vstd::slice::slice_index_get(bytes, i) == 0x2b {
        i = i + 1;
    }
    let ghost d = spec_strip_plus(whole);
    proof {
        assert(d =~= bytes@.skip(i as int));
    }
    if i >= bytes.len() {
        return None;
    }
    let ghost dstart = i as int;
    let mut acc: u32 = 0;
    while i < bytes.len()
        invariant
            dstart <= i <= bytes@.len(),
            acc == spec_digits_value(d.take(i - dstart), base as int),
            forall|k: int| 0 <= k < i - dstart ==> spec_is_digit(#[trigger] d[k], base as int),
        decreases bytes@.len() - i,
    {
        let b = *vstd::slice::slice_index_get(bytes, i);
        proof {
            assert(d[i - dstart] == b);
        }
        let v = match digit_value(b, base) {
            Some(v) => v,
            None => {
                return None;
            },
        };
        let limit = (u32::MAX - v) / base;
        proof {
            let j = i - dstart;
            let a = acc as int;
            assert(d.take(j + 1).drop_last() =~= d.take(j));
            assert(d.take(j + 1).last() == d[j]);
            vstd::arithmetic::div_mod::lemma_fundamental_div_mod(
                (u32::MAX - v) as int,
                base as int,
            );
            if acc <= limit {
                assert(a * base <= limit as int * base) by (nonlinear_arith)
                    requires
                        0 <= a <= limit as int,
                        base >= 1,
                ;
            } else {
                assert(a * base >= (limit as int + 1) * base) by (nonlinear_arith)
                    requires
                        a >= limit as int + 1,
                        base >= 1,
                ;
                assert(spec_digits_value(d.take(j + 1), base as int) > u32::MAX);
                if forall|k: int| 0 <= k < d.len() ==> spec_is_digit(#[trigger] d[k], base as int) {
                    assert(forall|k: int|
                        0 <= k < d.len() ==> spec_digit_value(#[trigger] d[k]) >= 0);
                    lemma_digits_value_prefix_le(d, base as int, j + 1);
                }
            }
        }
        if acc > limit {
            return None;
        }
        acc = acc * base + v;
        i = i + 1;
    }
    proof {
        assert(d.take(d.len() as int) =~= d);
    }
    Some(acc)
}

/// Parse a difficulty value given in hexadecimal (`0x` prefix) or
/// decimal text.  The result is absent exactly when the digits are
/// missing, malformed, or denote a value above the 32-bit range.
pub fn parse_hex_or_decimal(s: &str) -> (r: Result<u32, String>)
    ensures
        match r {
            Ok(v) => spec_parse_hex_or_decimal(s.spec_bytes()) == Some(v),
            Err(e) => spec_parse_hex_or_decimal(s.spec_bytes()) is None,
        },
{
    let bytes = s.as_bytes();
    proof {
        assert(bytes@ == s.spec_bytes());
    }
    let hex = bytes.len() >= 2 && *vstd::slice::slice_index_get(bytes, 0) == 0x30
        && *vstd::slice::slice_index_get(bytes, 1) == 0x78;
    proof {
        assert(hex == spec_has_hex_prefix(bytes@));
        assert(bytes@.skip(0) =~= bytes@);
    }
    if hex {
        match parse_u32_digits(bytes, 2, 16) {
            Some(v) => Ok(v),
            None => Err("invalid hex".to_owned()),
        }
    } else {
        match parse_u32_digits(bytes, 0, 10) {
            Some(v) => Ok(v),
            None => Err("invalid number".to_owned()),
        }
    }
}

} // verus!
