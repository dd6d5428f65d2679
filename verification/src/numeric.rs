//! Numeric interpretation and comparison of digests.
//!
//! A digest is compared against a difficulty target as a 256-bit unsigned
//! integer whose most significant byte sits at the highest index.

use vstd::prelude::*;
use vstd::arithmetic::power::pow;
use crate::hash::Hash256;

verus! {

/// The numeric value of a byte sequence, the byte at the highest index
/// being the most significant.
pub open spec fn digest_value(s: Seq<u8>) -> int
    decreases s.len(),
{
    if s.len() == 0 {
        0
    } else {
        digest_value(s.drop_last()) + s.last() * pow(256, (s.len() - 1) as nat)
    }
}

/// The value of a byte sequence is below 256 to the power of its length.
pub proof fn lemma_digest_value_bound(s: Seq<u8>)
    ensures
        0 <= digest_value(s) < pow(256, s.len()),
    decreases s.len(),
{
    if s.len() == 0 {
        vstd::arithmetic::power::lemma_pow0(256);
    } else {
        let n = (s.len() - 1) as nat;
        lemma_digest_value_bound(s.drop_last());
        vstd::arithmetic::power::lemma_pow_positive(256, n);
        vstd::arithmetic::power::lemma_pow1(256);
        vstd::arithmetic::power::lemma_pow_adds(256, 1, n);
        assert(pow(256, n + 1) == 256 * pow(256, n));
        assert(digest_value(s.drop_last()) + s.last() * pow(256, n) < 256 * pow(256, n)) by (nonlinear_arith)
            requires
                digest_value(s.drop_last()) < pow(256, n),
                s.last() <= 255,
                pow(256, n) > 0,
        ;
        assert(digest_value(s.drop_last()) + s.last() * pow(256, n) >= 0) by (nonlinear_arith)
            requires
                digest_value(s.drop_last()) >= 0,
                s.last() >= 0,
                pow(256, n) > 0,
        ;
    }
}

/// If two equally long sequences agree above position `i` and differ at
/// `i`, the one with the smaller byte at `i` has the smaller value.
pub proof fn lemma_digest_value_lt(a: Seq<u8>, b: Seq<u8>, i: int)
    requires
        a.len() == b.len(),
        0 <= i < a.len(),
        forall|j: int| i < j < a.len() ==> a[j] == b[j],
        a[i] < b[i],
    ensures
        digest_value(a) < digest_value(b),
    decreases a.len(),
{
    let n = (a.len() - 1) as nat;
    if i == a.len() - 1 {
        lemma_digest_value_bound(a.drop_last());
        lemma_digest_value_bound(b.drop_last());
        vstd::arithmetic::power::lemma_pow_positive(256, n);
        assert(digest_value(a.drop_last()) + a.last() * pow(256, n) < digest_value(
            b.drop_last(),
        ) + b.last() * pow(256, n)) by (nonlinear_arith)
            requires
                digest_value(a.drop_last()) < pow(256, n),
                digest_value(b.drop_last()) >= 0,
                a.last() < b.last(),
                pow(256, n) > 0,
        ;
    } else {
        assert(a.last() == b.last());
        assert(forall|j: int| i < j < a.drop_last().len() ==> a.drop_last()[j] == b.drop_last()[j]);
        assert(a.drop_last()[i] == a[i] && b.drop_last()[i] == b[i]);
        lemma_digest_value_lt(a.drop_last(), b.drop_last(), i);
    }
}

/// Compare two digests numerically: `a <= b` as 256-bit integers.
/// Equality counts as satisfying the bound.
pub fn digest_le(a: &Hash256, b: &Hash256) -> (r: bool)
    ensures
        r == (digest_value(a@) <= digest_value(b@)),
{
    let ab = a.as_bytes();
    let bb = b.as_bytes();
    let mut i: usize = 32;
    while i > 0
        invariant
            i <= 32,
            ab@ == a@,
            bb@ == b@,
            a@.len() == 32,
            b@.len() == 32,
            forall|j: int| i <= j < 32 ==> a@[j] == b@[j],
        decreases i,
    {
        i = i - 1;
        if ab[i] < bb[i] {
            proof {
                lemma_digest_value_lt(a@, b@, i as int);
            }
            return true;
        } else if ab[i] > bb[i] {
            proof {
                lemma_digest_value_lt(b@, a@, i as int);
            }
            return false;
        }
    }
    proof {
        assert(a@ =~= b@);
    }
    true
}

} // verus!
