//! Chain parameters.

use vstd::prelude::*;

verus! {

/// Target spacing between blocks, in seconds.
pub const BLOCK_TIME_SECONDS: u64 = 600;

/// Number of blocks in one difficulty-adjustment window.
pub const DIFFICULTY_ADJUSTMENT_INTERVAL: u64 = 2016;

/// Maximum serialized block size in bytes.
pub const MAX_BLOCK_SIZE: usize = 1_000_000;

/// Number of blocks before a coinbase output may be spent.
pub const COINBASE_MATURITY: u64 = 100;

/// Reward paid by the coinbase transaction of a freshly mined block,
/// in the smallest currency unit.
pub const INITIAL_BLOCK_REWARD: u64 = 100_000_000_000;

/// Number of blocks between halvings of the block reward.
pub const HALVING_INTERVAL: u64 = 210_000;

/// Timestamp of the genesis block (a fixed symbolic constant).
pub const GENESIS_TIMESTAMP: u64 = 1_609_459_200;

/// Compact difficulty of the genesis block.
pub const INITIAL_BITS: u32 = 0x1d00ffff;

} // verus!
