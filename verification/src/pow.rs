//! Proof-of-work: the bounded nonce search and its verification predicate.

use vstd::prelude::*;
use crate::block::{spec_header_hash, spec_meets_target, Block, BlockView, HeaderView};
use crate::hash::Hash256;

verus! {

/// The block with its header's nonce replaced; every other field is held
/// fixed.
pub open spec fn spec_with_nonce(b: BlockView, n: u64) -> BlockView {
    BlockView {
        header: HeaderView {
            version: b.header.version,
            previous_block: b.header.previous_block,
            merkle_root: b.header.merkle_root,
            timestamp: b.header.timestamp,
            bits: b.header.bits,
            nonce: n,
        },
        transactions: b.transactions,
    }
}

/// The number of nonces a search bound allows: the bound itself, or every
/// 64-bit nonce when none is given.
pub open spec fn spec_mine_bound(max_iterations: Option<u64>) -> u64 {
    match max_iterations {
        Some(m) => m,
        None => u64::MAX,
    }
}

/// Search for a nonce that makes the block satisfy its difficulty target.
///
/// Nonces are tried in order from zero up to (but excluding) the bound.
/// The first satisfying block is returned together with its digest; when
/// the bound is exhausted without success the search reports absence,
/// which is a normal outcome, not a failure.
#[verifier::loop_isolation(false)]
pub fn mine_block(block: Block, max_iterations: Option<u64>) -> (r: Option<(Block, Hash256)>)
    ensures
        match r {
            Some(pair) => {
                &&& pair.0@ == spec_with_nonce(block@, pair.0@.header.nonce)
                &&& pair.0@.header.nonce < spec_mine_bound(max_iterations)
                &&& spec_meets_target(pair.0@)
                &&& forall|n: u64|
                    n < pair.0@.header.nonce ==> !spec_meets_target(spec_with_nonce(block@, n))
                &&& pair.1@ == spec_header_hash(pair.0@.header)
            },
            None => forall|n: u64|
                n < spec_mine_bound(max_iterations) ==> !spec_meets_target(
                    spec_with_nonce(block@, n),
                ),
        },
{
    let ghost orig = block@;
    let mut cur = block;
    let max: u64 = match max_iterations {
        Some(m) => m,
        None => u64::MAX,
    };
    let mut nonce: u64 = 0;
    proof {
        assert(cur@ =~= spec_with_nonce(orig, orig.header.nonce));
    }
    while nonce < max
        invariant
            nonce <= max,
            max == spec_mine_bound(max_iterations),
            cur@ == spec_with_nonce(orig, cur@.header.nonce),
            forall|n: u64| n < nonce ==> !spec_meets_target(spec_with_nonce(orig, n)),
        decreases max - nonce,
    {
        cur.header.nonce = nonce;
        proof {
            assert(cur@ =~= spec_with_nonce(orig, nonce));
        }
        if cur.meets_difficulty_target() {
            let hash = cur.hash();
            return Some((cur, hash));
        }
        nonce = nonce + 1;
    }
    None
}

/// Whether a block's digest satisfies its difficulty target: the same
/// predicate a miner's output is produced under.
pub fn verify_pow(block: &Block) -> (r: bool)
    ensures
        r == spec_meets_target(block@),
{
    block.meets_difficulty_target()
}

} // verus!
