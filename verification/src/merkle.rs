//! Merkle commitment over an ordered sequence of digests.

use vstd::prelude::*;
use crate::hash::{Hash256, zero_digest};
use crate::hashing::{blake3_of, hash_data};

verus! {

/// The digest of an internal node: the hash of `left`‖`right`.
pub open spec fn spec_hash_pair(left: Seq<u8>, right: Seq<u8>) -> Seq<u8> {
    blake3_of(left + right)
}

/// The byte sequences of a sequence of digests.
pub open spec fn digests_view(s: Seq<Hash256>) -> Seq<Seq<u8>> {
    s.map_values(|h: Hash256| h@)
}

/// One level up the tree: adjacent nodes paired left-to-right, the last
/// node paired with itself when the level has odd cardinality.
pub open spec fn merkle_level(level: Seq<Seq<u8>>) -> Seq<Seq<u8>> {
    Seq::new(
        ((level.len() + 1) / 2) as nat,
        |i: int|
            if 2 * i + 1 < level.len() {
                spec_hash_pair(level[2 * i], level[2 * i + 1])
            } else {
                spec_hash_pair(level[2 * i], level[2 * i])
            },
    )
}

/// The Merkle root of an ordered leaf sequence: the zero digest for no
/// leaves, the leaf itself for one leaf, and otherwise the root of the
/// level built from adjacent pairs.
pub open spec fn spec_merkle_root(leaves: Seq<Seq<u8>>) -> Seq<u8>
    decreases leaves.len(),
{
    if leaves.len() == 0 {
        zero_digest()
    } else if leaves.len() == 1 {
        leaves[0]
    } else {
        spec_merkle_root(merkle_level(leaves))
    }
}

/// Merkle tree over transaction digests.
#[derive(Clone, Debug)]
pub struct MerkleTree {
    leaves: Vec<Hash256>,
    nodes: Vec<Hash256>,
    root: Hash256,
}

impl MerkleTree {
    /// The leaf digests the tree was built from.
    pub closed spec fn spec_leaves(&self) -> Seq<Seq<u8>> {
        digests_view(self.leaves@)
    }

    /// The root digest.
    pub closed spec fn spec_root(&self) -> Seq<u8> {
        self.root@
    }

    /// A tree is well formed when its root is the Merkle root of its
    /// leaves.
    pub open spec fn wf(&self) -> bool {
        self.spec_root() == spec_merkle_root(self.spec_leaves())
    }

    /// Build a Merkle tree bottom-up from the given leaf digests.
    pub fn new(leaves: Vec<Hash256>) -> (r: Self)
        ensures
            r.spec_leaves() == digests_view(leaves@),
            r.spec_root() == spec_merkle_root(digests_view(leaves@)),
            r.wf(),
    {
        if leaves.len() == 0 {
            return MerkleTree { leaves, nodes: Vec::new(), root: Hash256::zero() };
        }
        let mut nodes = copy_digests(&leaves);
        let mut current_level = copy_digests(&leaves);

        while current_level.len() > 1
            invariant
                current_level@.len() >= 1,
                spec_merkle_root(digests_view(current_level@)) == spec_merkle_root(
                    digests_view(leaves@),
                ),
            decreases current_level@.len(),
        {
            let ghost cur = digests_view(current_level@);
            let mut next_level: Vec<Hash256> = Vec::new();
            let mut i: usize = 0;
            while i < current_level.len()
                invariant
                    current_level@.len() >= 2,
                    i <= current_level@.len(),
                    i % 2 == 0 || i == current_level@.len(),
                    next_level@.len() == (i + 1) / 2,
                    cur == digests_view(current_level@),
                    forall|j: int|
                        0 <= j < next_level@.len() ==> next_level@[j]@ == merkle_level(cur)[j],
                decreases current_level@.len() - i,
            {
                let left = current_level[i];
                if i + 1 < current_level.len() {
                    let right = current_level[i + 1];
                    let parent = hash_pair(&left, &right);
                    next_level.push(parent);
                    nodes.push(parent);
                    i = i + 2;
                } else {
                    let parent = hash_pair(&left, &left);
                    next_level.push(parent);
                    nodes.push(parent);
                    i = current_level.len();
                }
            }
            proof {
                assert(digests_view(next_level@) =~= merkle_level(cur));
            }
            current_level = next_level;
        }
        let root = current_level[0];
        proof {
            assert(spec_merkle_root(digests_view(current_level@)) == digests_view(
                current_level@,
            )[0]);
        }
        MerkleTree { leaves, nodes, root }
    }

    /// The Merkle root.
    pub fn root(&self) -> (r: Hash256)
        ensures
            r@ == self.spec_root(),
    {
        self.root
    }

    /// The number of leaves.
    pub fn len(&self) -> (r: usize)
        ensures
            r == self.spec_leaves().len(),
    {
        self.leaves.len()
    }

    /// Whether the tree has no leaves.
    pub fn is_empty(&self) -> (r: bool)
        ensures
            r == (self.spec_leaves().len() == 0),
    {
        self.leaves.len() == 0
    }
}

/// Hash two nodes together (left‖right).
fn hash_pair(left: &Hash256, right: &Hash256) -> (r: Hash256)
    ensures
        r@ == spec_hash_pair(left@, right@),
{
    let mut buf: Vec<u8> = Vec::new();
    buf.extend_from_slice(left.as_bytes().as_slice());
    buf.extend_from_slice(right.as_bytes().as_slice());
    proof {
        assert(buf@ =~= left@ + right@);
    }
    hash_data(buf.as_slice())
}

/// An element-wise copy of a digest vector.
fn copy_digests(src: &Vec<Hash256>) -> (r: Vec<Hash256>)
    ensures
        r@ == src@,
{
    let mut r: Vec<Hash256> = Vec::new();
    let mut i: usize = 0;
    while i < src.len()
        invariant
            i <= src@.len(),
            r@ == src@.take(i as int),
        decreases src@.len() - i,
    {
        r.push(src[i]);
        proof {
            assert(r@ =~= src@.take(i + 1));
        }
        i = i + 1;
    }
    proof {
        assert(src@.take(src@.len() as int) =~= src@);
    }
    r
}

/// With no leaves the root is the zero digest.
pub proof fn lemma_merkle_root_empty()
    ensures
        spec_merkle_root(Seq::<Seq<u8>>::empty()) == zero_digest(),
{
}

/// With a single leaf the root is that leaf, with no hashing applied.
pub proof fn lemma_merkle_root_single(leaf: Seq<u8>)
    ensures
        spec_merkle_root(seq![leaf]) == leaf,
{
}

/// For any two leaves, the root is the hash of the pair.
pub proof fn lemma_merkle_root_two(a: Seq<u8>, b: Seq<u8>)
    ensures
        spec_merkle_root(seq![a, b]) == spec_hash_pair(a, b),
{
    let leaves = seq![a, b];
    let level1 = seq![spec_hash_pair(a, b)];
    assert(merkle_level(leaves) =~= level1);
    assert(spec_merkle_root(level1) == spec_hash_pair(a, b));
}

/// For any three leaves, the root pairs the first two, pairs the third
/// with itself, and hashes the two results together.
pub proof fn lemma_merkle_root_three(a: Seq<u8>, b: Seq<u8>, c: Seq<u8>)
    ensures
        spec_merkle_root(seq![a, b, c]) == spec_hash_pair(
            spec_hash_pair(a, b),
            spec_hash_pair(c, c),
        ),
{
    let leaves = seq![a, b, c];
    let level1 = seq![spec_hash_pair(a, b), spec_hash_pair(c, c)];
    assert(merkle_level(leaves) =~= level1);
    lemma_merkle_root_two(spec_hash_pair(a, b), spec_hash_pair(c, c));
}

/// Building is deterministic: two well-formed trees over the same ordered
/// leaves have the same root.
pub proof fn lemma_merkle_deterministic(t1: MerkleTree, t2: MerkleTree)
    requires
        t1.wf(),
        t2.wf(),
        t1.spec_leaves() == t2.spec_leaves(),
    ensures
        t1.spec_root() == t2.spec_root(),
{
}

} // verus!
