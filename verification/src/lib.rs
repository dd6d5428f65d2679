//! Core of a minimal proof-of-work blockchain.
//!
//! The crate defines the chain's data model (digests, transactions, blocks,
//! Merkle commitments), the deterministic byte codec used for hashing and
//! storage, the compact-difficulty target codec, the bounded proof-of-work
//! search, and the difficulty-adjustment rule.  Every executable function
//! carries a contract relating its result to the mathematical model; the
//! calls into the hashing and signature crates stand behind small trusted
//! wrappers whose contracts name what those crates compute.

pub mod block;
pub mod codec;
pub mod constants;
pub mod difficulty;
pub mod hash;
pub mod hashing;
pub mod keys;
pub mod merkle;
pub mod numeric;
pub mod parse;
pub mod pow;
pub mod transaction;
pub mod utxo;
