//! The 32-byte digest type.

use vstd::prelude::*;
use vstd::string::StringSliceAdditionalSpecFns;

verus! {

broadcast use vstd::array::group_array_axioms;

/// The all-zero digest, used as the "no predecessor" / "no commitment"
/// sentinel.
pub open spec fn zero_digest() -> Seq<u8> {
    Seq::new(32, |i: int| 0u8)
}

/// The lowercase-hex character for a nibble value below 16.
pub open spec fn hex_digit(v: u8) -> u8 {
    if v < 10 {
        (0x30 + v) as u8
    } else {
        (0x57 + v) as u8
    }
}

/// Lowercase-hex text of a byte sequence: two characters per byte, the
/// high nibble first.
pub open spec fn spec_to_hex(s: Seq<u8>) -> Seq<char> {
    Seq::new(
        2 * s.len(),
        |i: int|
            (if i % 2 == 0 {
                hex_digit((s[i / 2] / 16) as u8)
            } else {
                hex_digit((s[i / 2] % 16) as u8)
            }) as char,
    )
}

/// A 256-bit hash value.  Equality is byte-wise; the canonical text form is
/// 64 lowercase-hex characters; the all-zero value is a sentinel.
#[derive(Clone, Copy, Debug)]
pub struct Hash256([u8; 32]);

impl View for Hash256 {
    type V = Seq<u8>;

    closed spec fn view(&self) -> Seq<u8> {
        self.0@
    }
}

/// Every digest is exactly 32 bytes.
pub broadcast proof fn lemma_digest_len(h: Hash256)
    ensures
        #[trigger] h@.len() == 32,
{
}

impl PartialEq for Hash256 {
    fn eq(&self, other: &Self) -> (r: bool) {
        let mut i: usize = 0;
        while i < 32
            invariant
                i <= 32,
                forall|j: int| 0 <= j < i ==> self.0@[j] == other.0@[j],
            decreases 32 - i,
        {
            if self.0[i] != other.0[i] {
                return false;
            }
            i = i + 1;
        }
        proof {
            assert(self.0@ =~= other.0@);
        }
        true
    }
}

impl vstd::std_specs::cmp::PartialEqSpecImpl for Hash256 {
    open spec fn obeys_eq_spec() -> bool {
        true
    }

    open spec fn eq_spec(&self, other: &Self) -> bool {
        self@ == other@
    }
}

impl Hash256 {
    /// Wrap a 32-byte array as a digest.
    pub fn from_bytes(bytes: [u8; 32]) -> (r: Self)
        ensures
            r@ == bytes@,
    {
        Hash256(bytes)
    }

    /// The digest's bytes.
    pub fn as_bytes(&self) -> (r: &[u8; 32])
        ensures
            r@ == self@,
    {
        &self.0
    }

    /// The all-zero digest.
    pub fn zero() -> (r: Self)
        ensures
            r@ == zero_digest(),
    {
        let bytes = [0u8; 32];
        proof {
            assert(bytes@ =~= zero_digest());
        }
        Hash256(bytes)
    }

    /// The canonical text form: 64 lowercase-hex characters.
    pub fn to_hex(&self) -> (r: String)
        ensures
            r@ == spec_to_hex(self@),
    {
        bytes_to_hex(self.as_bytes().as_slice())
    }
}

/// The lowercase-hex ascii bytes of a byte string.
pub(crate) fn hex_ascii_of(bytes: &[u8]) -> (r: Vec<u8>)
    ensures
        r@.len() == 2 * bytes@.len(),
        forall|j: int|
            0 <= j < r@.len() ==> r@[j] == (if j % 2 == 0 {
                hex_digit((bytes@[j / 2] / 16) as u8)
            } else {
                hex_digit((bytes@[j / 2] % 16) as u8)
            }) && r@[j] < 0x80,
{
    let mut out: Vec<u8> = Vec::new();
    let mut i: usize = 0;
    while i < bytes.len()
        invariant
            i <= bytes@.len(),
            out@.len() == 2 * i,
            forall|j: int|
                0 <= j < 2 * i ==> out@[j] == (if j % 2 == 0 {
                    hex_digit((bytes@[j / 2] / 16) as u8)
                } else {
                    hex_digit((bytes@[j / 2] % 16) as u8)
                }) && out@[j] < 0x80,
        decreases bytes@.len() - i,
    {
        let b = *vstd::slice::slice_index_get(bytes, i);
        out.push(hex_digit_exec(b / 16));
        out.push(hex_digit_exec(b % 16));
        i = i + 1;
    }
    out
}

/// The canonical lowercase-hex text of a byte string.
pub fn bytes_to_hex(bytes: &[u8]) -> (r: String)
    ensures
        r@ == spec_to_hex(bytes@),
{
    let out = hex_ascii_of(bytes);
    let r = ascii_to_string(out);
    proof {
        assert(r@ =~= spec_to_hex(bytes@));
    }
    r
}

/// The bytes a lowercase- or uppercase-hex text denotes, or absence when
/// the text has odd length or a character that is no hex digit.
pub fn hex_to_bytes(s: &str) -> (r: Option<Vec<u8>>)
    ensures
        r is Some <==> (s.spec_bytes().len() % 2 == 0 && forall|k: int|
            0 <= k < s.spec_bytes().len() ==> crate::parse::spec_is_digit(
                #[trigger] s.spec_bytes()[k],
                16,
            )),
        r matches Some(v) ==> 2 * v@.len() == s.spec_bytes().len() && forall|k: int|
            0 <= k < v@.len() ==> #[trigger] v@[k] == crate::parse::spec_digit_value(
                s.spec_bytes()[2 * k],
            ) * 16 + crate::parse::spec_digit_value(s.spec_bytes()[2 * k + 1]),
{
    let bytes = s.as_bytes();
    if bytes.len() % 2 != 0 {
        return None;
    }
    let mut out: Vec<u8> = Vec::new();
    let mut i: usize = 0;
    while i < bytes.len()
        invariant
            i <= bytes@.len(),
            i % 2 == 0,
            bytes@.len() % 2 == 0,
            bytes@ == s.spec_bytes(),
            out@.len() == i / 2,
            forall|k: int|
                0 <= k < i ==> crate::parse::spec_is_digit(#[trigger] bytes@[k], 16),
            forall|k: int|
                0 <= k < out@.len() ==> #[trigger] out@[k] == crate::parse::spec_digit_value(
                    bytes@[2 * k],
                ) * 16 + crate::parse::spec_digit_value(bytes@[2 * k + 1]),
        decreases bytes@.len() - i,
    {
        let hi = match crate::parse::digit_value(*vstd::slice::slice_index_get(bytes, i), 16) {
            Some(v) => v,
            None => {
                return None;
            },
        };
        let lo = match crate::parse::digit_value(
            *vstd::slice::slice_index_get(bytes, i + 1),
            16,
        ) {
            Some(v) => v,
            None => {
                return None;
            },
        };
        out.push((hi * 16 + lo) as u8);
        i = i + 2;
    }
    Some(out)
}

/// The lowercase-hex character for a nibble value.
fn hex_digit_exec(v: u8) -> (r: u8)
    requires
        v < 16,
    ensures
        r == hex_digit(v),
        r < 0x80,
{
    if v < 10 {
        0x30 + v
    } else {
        0x57 + v
    }
}

/// Relies on `String::from_utf8`: bytes below 0x80 are valid UTF-8, and the
/// resulting string's characters are exactly those bytes.
#[verifier::external_body]
pub(crate) fn ascii_to_string(bytes: Vec<u8>) -> (r: String)
    requires
        forall|i: int| 0 <= i < bytes@.len() ==> bytes@[i] < 0x80,
    ensures
        r@ == bytes@.map_values(|b: u8| b as char),
{
    match String::from_utf8(bytes) {
        Ok(s) => s,
        Err(_) => String::new(),
    }
}

} // verus!
