//! Blocks and block headers.

use vstd::prelude::*;
use vstd::bytes::spec_u64_to_le_bytes;
use crate::constants::{GENESIS_TIMESTAMP, INITIAL_BITS, INITIAL_BLOCK_REWARD};
use crate::codec::{spec_serialize_header, spec_serialize_tx, encode_header, encode_tx};
use crate::hash::{Hash256, zero_digest};
use crate::hashing::{blake3_of, hash_block_header, hash_data};
use crate::merkle::{spec_merkle_root, MerkleTree};
use crate::numeric::{digest_le, digest_value};
use crate::transaction::{
    spec_is_coinbase, InputView, OutputView, Transaction, TransactionView, COINBASE_OUTPUT_INDEX,
};

verus! {

/// Mathematical model of a block header.
#[verifier::ext_equal]
pub struct HeaderView {
    pub version: u32,
    pub previous_block: Seq<u8>,
    pub merkle_root: Seq<u8>,
    pub timestamp: u64,
    pub bits: u32,
    pub nonce: u64,
}

/// Mathematical model of a block.
#[verifier::ext_equal]
pub struct BlockView {
    pub header: HeaderView,
    pub transactions: Seq<TransactionView>,
}

/// Block header: the metadata the proof-of-work search operates on.
#[derive(Clone, Debug)]
pub struct BlockHeader {
    /// Block format version.
    pub version: u32,
    /// Digest of the previous block, or the zero digest for genesis.
    pub previous_block: Hash256,
    /// Merkle root of the block's transactions.
    pub merkle_root: Hash256,
    /// Unix timestamp, in seconds.
    pub timestamp: u64,
    /// Difficulty target in compact form.
    pub bits: u32,
    /// Nonce varied by the proof-of-work search.
    pub nonce: u64,
}

/// A block: a header over an ordered list of transactions.
#[derive(Clone, Debug)]
pub struct Block {
    /// The block's header.
    pub header: BlockHeader,
    /// The transactions the header commits to.
    pub transactions: Vec<Transaction>,
}

impl View for BlockHeader {
    type V = HeaderView;

    open spec fn view(&self) -> HeaderView {
        HeaderView {
            version: self.version,
            previous_block: self.previous_block@,
            merkle_root: self.merkle_root@,
            timestamp: self.timestamp,
            bits: self.bits,
            nonce: self.nonce,
        }
    }
}

impl View for Block {
    type V = BlockView;

    open spec fn view(&self) -> BlockView {
        BlockView {
            header: self.header@,
            transactions: self.transactions@.map_values(|t: Transaction| t@),
        }
    }
}

/// The digest of a header: a double hash of its serialized bytes.
pub open spec fn spec_header_hash(h: HeaderView) -> Seq<u8> {
    blake3_of(blake3_of(spec_serialize_header(h)))
}

/// One byte of the 256-bit target a compact difficulty value denotes.
/// The byte at index 31 is the most significant.  An exponent of at most
/// 3 keeps only the low mantissa bytes; an exponent below 32 writes the
/// three mantissa bytes at an offset set by the exponent, zeros above
/// them and maximum bytes below; an exponent of 32 or more denotes the
/// all-maximum (easiest) target.
pub open spec fn spec_target_byte(bits: u32, i: int) -> u8 {
    let e = (bits >> 24) as int;
    let m = bits & 0x00ffffff;
    if e <= 3 {
        if i >= e {
            0u8
        } else if i == 0 {
            (m & 0xff) as u8
        } else if i == 1 {
            ((m >> 8) & 0xff) as u8
        } else {
            ((m >> 16) & 0xff) as u8
        }
    } else if e < 32 {
        let start = e - 3;
        if i < start {
            0xffu8
        } else if i == start {
            ((m >> 16) & 0xff) as u8
        } else if i == start + 1 {
            ((m >> 8) & 0xff) as u8
        } else if i == start + 2 {
            (m & 0xff) as u8
        } else {
            0u8
        }
    } else {
        0xffu8
    }
}

/// The 256-bit target a compact difficulty value denotes.
pub open spec fn spec_bits_to_target(bits: u32) -> Seq<u8> {
    Seq::new(32, |i: int| spec_target_byte(bits, i))
}

/// A block satisfies its difficulty target when its header digest, read
/// as a 256-bit integer, is at most the target its bits denote; equality
/// counts as satisfying it.
pub open spec fn spec_meets_target(b: BlockView) -> bool {
    digest_value(spec_header_hash(b.header)) <= digest_value(spec_bits_to_target(b.header.bits))
}

/// The leaf digests a block's transactions contribute to the Merkle tree:
/// each transaction serialized and hashed once.
pub open spec fn spec_tx_leaves(txs: Seq<TransactionView>) -> Seq<Seq<u8>> {
    txs.map_values(|t: TransactionView| blake3_of(spec_serialize_tx(t)))
}

/// The genesis coinbase: the fixed reward paid to the all-zero burn
/// address at height zero.
pub open spec fn spec_genesis_coinbase() -> TransactionView {
    TransactionView {
        version: 1,
        inputs: seq![
            InputView {
                previous_output: zero_digest(),
                output_index: COINBASE_OUTPUT_INDEX,
                signature: Seq::empty(),
                public_key: spec_u64_to_le_bytes(0),
            },
        ],
        outputs: seq![
            OutputView { amount: INITIAL_BLOCK_REWARD, recipient: Seq::new(20, |i: int| 0u8) },
        ],
        locktime: 0,
    }
}

/// The genesis block: fixed parameters, no predecessor, one coinbase
/// transaction, and a merkle root left at the zero digest until it is
/// recomputed.
pub open spec fn spec_genesis() -> BlockView {
    BlockView {
        header: HeaderView {
            version: 1,
            previous_block: zero_digest(),
            merkle_root: zero_digest(),
            timestamp: GENESIS_TIMESTAMP,
            bits: INITIAL_BITS,
            nonce: 0,
        },
        transactions: seq![spec_genesis_coinbase()],
    }
}

impl BlockHeader {
    /// Serialize the header for hashing: 88 bytes, deterministic.
    pub fn serialize(&self) -> (r: Vec<u8>)
        ensures
            r@ == spec_serialize_header(self@),
    {
        encode_header(self)
    }

    /// The header's digest: a double hash of its serialized bytes.
    pub fn hash(&self) -> (r: Hash256)
        ensures
            r@ == spec_header_hash(self@),
    {
        let serialized = self.serialize();
        hash_block_header(serialized.as_slice())
    }
}

impl Block {
    /// Build the genesis block.  The merkle root field is left at the
    /// zero digest: callers recompute it from the transaction list before
    /// hashing or mining.
    pub fn genesis() -> (r: Self)
        ensures
            r@ == spec_genesis(),
            r@.header.version == 1,
            r@.header.previous_block == zero_digest(),
            r@.transactions.len() == 1,
            spec_is_coinbase(r@.transactions[0]),
    {
        let recipient = zero_bytes_vec(20);
        let coinbase = Transaction::coinbase(recipient, INITIAL_BLOCK_REWARD, 0);
        let mut transactions: Vec<Transaction> = Vec::new();
        transactions.push(coinbase);
        let b = Block {
            header: BlockHeader {
                version: 1,
                previous_block: Hash256::zero(),
                merkle_root: Hash256::zero(),
                timestamp: GENESIS_TIMESTAMP,
                bits: INITIAL_BITS,
                nonce: 0,
            },
            transactions,
        };
        proof {
            assert(b@.transactions[0].inputs =~= spec_genesis_coinbase().inputs);
            assert(b@.transactions[0].outputs =~= spec_genesis_coinbase().outputs);
            assert(b@.transactions =~= spec_genesis().transactions);
        }
        b
    }

    /// The Merkle root of the block's transactions: each transaction is
    /// serialized and hashed once, and the resulting ordered digests feed
    /// the Merkle builder.
    pub fn calculate_merkle_root(&self) -> (r: Hash256)
        ensures
            r@ == spec_merkle_root(spec_tx_leaves(self@.transactions)),
    {
        let mut leaves: Vec<Hash256> = Vec::new();
        let mut i: usize = 0;
        while i < self.transactions.len()
            invariant
                i <= self.transactions@.len(),
                self@.transactions.len() == self.transactions@.len(),
                leaves@.len() == i,
                forall|j: int|
                    0 <= j < i ==> leaves@[j]@ == spec_tx_leaves(self@.transactions)[j],
            decreases self.transactions@.len() - i,
        {
            let serialized = encode_tx(&self.transactions[i]);
            let leaf = hash_data(serialized.as_slice());
            leaves.push(leaf);
            i = i + 1;
        }
        let tree = MerkleTree::new(leaves);
        proof {
            assert(crate::merkle::digests_view(leaves@) =~= spec_tx_leaves(self@.transactions));
        }
        tree.root()
    }

    /// The block's digest: its header's digest.
    pub fn hash(&self) -> (r: Hash256)
        ensures
            r@ == spec_header_hash(self@.header),
    {
        self.header.hash()
    }

    /// Whether the block's digest satisfies the difficulty target its
    /// header's bits denote.
    pub fn meets_difficulty_target(&self) -> (r: bool)
        ensures
            r == spec_meets_target(self@),
    {
        let hash = self.hash();
        let target = Self::bits_to_target(self.header.bits);
        digest_le(&hash, &target)
    }

    /// Expand a compact difficulty value to the 256-bit target it
    /// denotes.
    pub fn bits_to_target(bits: u32) -> (r: Hash256)
        ensures
            r@ == spec_bits_to_target(bits),
    {
        let exponent = ((bits >> 24) & 0xff) as usize;
        let mantissa = bits & 0x00ffffff;
        proof {
            assert((bits >> 24) & 0xff == bits >> 24 && bits >> 24 < 256) by (bit_vector);
        }
        let mut target = [0xffu8; 32];
        if exponent <= 3 {
            let mut i: usize = 0;
            while i < 32
                invariant
                    i <= 32,
                    forall|j: int| 0 <= j < i ==> target@[j] == 0u8,
                    forall|j: int| i <= j < 32 ==> target@[j] == 0xffu8,
                decreases 32 - i,
            {
                target[i] = 0;
                i = i + 1;
            }
            if exponent >= 1 {
                target[0] = (mantissa & 0xff) as u8;
            }
            if exponent >= 2 {
                target[1] = ((mantissa >> 8) & 0xff) as u8;
            }
            if exponent >= 3 {
                target[2] = ((mantissa >> 16) & 0xff) as u8;
            }
        } else if exponent < 32 {
            let start = exponent - 3;
            target[start] = ((mantissa >> 16) & 0xff) as u8;
            target[start + 1] = ((mantissa >> 8) & 0xff) as u8;
            target[start + 2] = (mantissa & 0xff) as u8;
            let mut i: usize = start + 3;
            while i < 32
                invariant
                    4 <= exponent < 32,
                    start == exponent - 3,
                    start + 3 <= i <= 32,
                    forall|j: int| 0 <= j < start ==> target@[j] == 0xffu8,
                    target@[start as int] == ((mantissa >> 16) & 0xff) as u8,
                    target@[start + 1] == ((mantissa >> 8) & 0xff) as u8,
                    target@[start + 2] == (mantissa & 0xff) as u8,
                    forall|j: int| start + 3 <= j < i ==> target@[j] == 0u8,
                    forall|j: int| i <= j < 32 ==> target@[j] == 0xffu8,
                decreases 32 - i,
            {
                target[i] = 0;
                i = i + 1;
            }
        }
        let r = Hash256::from_bytes(target);
        proof {
            assert(r@ =~= spec_bits_to_target(bits));
        }
        r
    }
}

/// A vector of `n` zero bytes.
fn zero_bytes_vec(n: usize) -> (r: Vec<u8>)
    ensures
        r@ == Seq::new(n as nat, |i: int| 0u8),
{
    let mut r: Vec<u8> = Vec::new();
    let mut i: usize = 0;
    while i < n
        invariant
            i <= n,
            r@.len() == i,
            forall|j: int| 0 <= j < i ==> r@[j] == 0u8,
        decreases n - i,
    {
        r.push(0);
        i = i + 1;
    }
    proof {
        assert(r@ =~= Seq::new(n as nat, |i: int| 0u8));
    }
    r
}

} // verus!
