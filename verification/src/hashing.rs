//! Hashing of arbitrary byte data.
//!
//! The underlying cryptographic hash function is blake3; its output on a
//! given byte sequence is named by the uninterpreted function [`blake3_of`],
//! and everything else is proved against that name.

use vstd::prelude::*;
use crate::hash::{spec_to_hex, Hash256};

verus! {

/// The 32-byte blake3 digest of a byte sequence.  The result depends on the
/// bytes alone.
pub uninterp spec fn blake3_of(data: Seq<u8>) -> Seq<u8>;

/// Hash arbitrary data with a single application of the hash function.
///
/// Relies on `blake3::hash`: the digest is a pure function of the input
/// bytes, and is 32 bytes long.
#[verifier::external_body]
pub fn hash_data(data: &[u8]) -> (r: Hash256)
    ensures
        r@ == blake3_of(data@),
{
    Hash256::from_bytes(*blake3::hash(data).as_bytes())
}

/// Hash-of-hash, the convention proof-of-work difficulty is measured
/// against.
pub fn double_hash(data: &[u8]) -> (r: Hash256)
    ensures
        r@ == blake3_of(blake3_of(data@)),
{
    let first = hash_data(data);
    let r = hash_data(first.as_bytes().as_slice());
    r
}

/// Hash a serialized block header: a double hash of its bytes.
pub fn hash_block_header(header: &[u8]) -> (r: Hash256)
    ensures
        r@ == blake3_of(blake3_of(header@)),
{
    double_hash(header)
}

/// An address: a fixed textual prefix, then the first 20 bytes of the
/// public key's hash in lowercase hex.
pub open spec fn spec_address_of(public_key: Seq<u8>) -> Seq<char> {
    "null1"@ + spec_to_hex(blake3_of(public_key).take(20))
}

/// Derive the textual address a public key pays to.
pub fn derive_address(public_key: &[u8]) -> (r: String)
    ensures
        r@ == spec_address_of(public_key@),
{
    let h = hash_data(public_key);
    let truncated = vstd::slice::slice_subrange(h.as_bytes().as_slice(), 0, 20);
    let mut out: Vec<u8> = Vec::new();
    out.push(0x6e);  // 'n'
    out.push(0x75);  // 'u'
    out.push(0x6c);  // 'l'
    out.push(0x6c);  // 'l'
    out.push(0x31);  // '1'
    let mut hex = crate::hash::hex_ascii_of(truncated);
    out.append(&mut hex);
    let r = crate::hash::ascii_to_string(out);
    proof {
        reveal_strlit("null1");
        assert(truncated@ =~= blake3_of(public_key@).take(20));
        assert(r@ =~= spec_address_of(public_key@));
    }
    r
}

} // verus!
