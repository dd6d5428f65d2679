//! Keys for the spendable-output set.
//!
//! An outpoint names one output of one transaction; its persistent key is
//! the 32-byte transaction digest followed by the output index in
//! big-endian form, 36 bytes in all.

use vstd::prelude::*;
use crate::hash::Hash256;

verus! {

/// The big-endian bytes of a 32-bit integer.
pub open spec fn spec_u32_to_be_bytes(x: u32) -> Seq<u8> {
    seq![
        ((x >> 24) & 0xff) as u8,
        ((x >> 16) & 0xff) as u8,
        ((x >> 8) & 0xff) as u8,
        (x & 0xff) as u8,
    ]
}

/// The 32-bit integer a big-endian 4-byte sequence denotes.
pub open spec fn spec_u32_from_be_bytes(s: Seq<u8>) -> u32
    recommends
        s.len() == 4,
{
    ((s[0] as u32) << 24) | ((s[1] as u32) << 16) | ((s[2] as u32) << 8) | (s[3] as u32)
}

/// Reading back the big-endian bytes of an integer recovers it.
pub proof fn lemma_u32_be_bytes_round_trip(x: u32)
    ensures
        spec_u32_from_be_bytes(spec_u32_to_be_bytes(x)) == x,
{
    assert((((((x >> 24) & 0xff) as u8) as u32) << 24) | (((((x >> 16) & 0xff) as u8) as u32)
        << 16) | (((((x >> 8) & 0xff) as u8) as u32) << 8) | (((x & 0xff) as u8) as u32) == x)
        by (bit_vector);
}

/// The persistent key of an outpoint.
pub open spec fn spec_outpoint_key(txid: Seq<u8>, index: u32) -> Seq<u8> {
    txid + spec_u32_to_be_bytes(index)
}

/// The key of an outpoint decomposes back into its digest and index.
pub proof fn lemma_outpoint_key_round_trip(txid: Seq<u8>, index: u32)
    requires
        txid.len() == 32,
    ensures
        spec_outpoint_key(txid, index).len() == 36,
        spec_outpoint_key(txid, index).subrange(0, 32) == txid,
        spec_u32_from_be_bytes(spec_outpoint_key(txid, index).subrange(32, 36)) == index,
{
    let key = spec_outpoint_key(txid, index);
    assert(key.subrange(0, 32) =~= txid);
    assert(key.subrange(32, 36) =~= spec_u32_to_be_bytes(index));
    lemma_u32_be_bytes_round_trip(index);
}

/// A reference to one output of one transaction.
#[derive(Clone, Debug)]
pub struct OutPoint {
    /// Digest of the transaction holding the output.
    pub txid: Hash256,
    /// Index of the output within that transaction.
    pub index: u32,
}

impl OutPoint {
    /// The outpoint's 36-byte persistent key.
    pub fn to_key(&self) -> (r: Vec<u8>)
        ensures
            r@ == spec_outpoint_key(self.txid@, self.index),
            r@.len() == 36,
    {
        let bytes = self.txid.as_bytes();
        let mut key: Vec<u8> = Vec::new();
        let mut i: usize = 0;
        while i < 32
            invariant
                i <= 32,
                bytes@ == self.txid@,
                self.txid@.len() == 32,
                key@ == self.txid@.take(i as int),
            decreases 32 - i,
        {
            key.push(bytes[i]);
            proof {
                assert(self.txid@.take(i + 1) =~= self.txid@.take(i as int).push(
                    self.txid@[i as int],
                ));
            }
            i = i + 1;
        }
        proof {
            assert(self.txid@.take(32) =~= self.txid@);
        }
        key.push(((self.index >> 24) & 0xff) as u8);
        key.push(((self.index >> 16) & 0xff) as u8);
        key.push(((self.index >> 8) & 0xff) as u8);
        key.push((self.index & 0xff) as u8);
        proof {
            assert(key@ =~= spec_outpoint_key(self.txid@, self.index));
        }
        key
    }

    /// Recover an outpoint from a persistent key.  A key that is not
    /// exactly 36 bytes denotes no outpoint.
    pub fn from_key(key: &[u8]) -> (r: Option<Self>)
        ensures
            r is Some <==> key@.len() == 36,
            r matches Some(p) ==> p.txid@ == key@.subrange(0, 32) && p.index
                == spec_u32_from_be_bytes(key@.subrange(32, 36)),
    {
        if key.len() != 36 {
            return None;
        }
        let mut txid_bytes = [0u8; 32];
        let mut i: usize = 0;
        while i < 32
            invariant
                i <= 32,
                key@.len() == 36,
                forall|j: int| 0 <= j < i ==> txid_bytes@[j] == key@[j],
            decreases 32 - i,
        {
            let b = *vstd::slice::slice_index_get(key, i);
            txid_bytes[i] = b;
            i = i + 1;
        }
        proof {
            assert(txid_bytes@ =~= key@.subrange(0, 32));
        }
        let b32 = *vstd::slice::slice_index_get(key, 32);
        let b33 = *vstd::slice::slice_index_get(key, 33);
        let b34 = *vstd::slice::slice_index_get(key, 34);
        let b35 = *vstd::slice::slice_index_get(key, 35);
        let index: u32 = ((b32 as u32) << 24) | ((b33 as u32) << 16) | ((b34 as u32) << 8) | (
        b35 as u32);
        let p = OutPoint { txid: Hash256::from_bytes(txid_bytes), index };
        proof {
            let s = key@.subrange(32, 36);
            assert(s[0] == b32 && s[1] == b33 && s[2] == b34 && s[3] == b35);
        }
        Some(p)
    }
}

} // verus!
