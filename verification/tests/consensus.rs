use nullchain::block::Block;
use nullchain::constants;
use nullchain::difficulty::{adjust_difficulty, calculate_target_time};
use nullchain::hash::Hash256;
use nullchain::parse::parse_hex_or_decimal;
use nullchain::pow::{mine_block, verify_pow};

#[test]
fn test_difficulty_increase_when_fast() {
    let old_bits = 0x1d00ffff;
    let target_time = constants::BLOCK_TIME_SECONDS * constants::DIFFICULTY_ADJUSTMENT_INTERVAL;
    let actual_time = target_time / 2; // Blocks too fast

    let new_bits = adjust_difficulty(old_bits, actual_time, target_time);

    // Difficulty should increase (bits should decrease or stay same)
    assert!(new_bits <= old_bits);
}

#[test]
fn test_difficulty_decrease_when_slow() {
    let old_bits = 0x1d00ffff;
    let target_time = constants::BLOCK_TIME_SECONDS * constants::DIFFICULTY_ADJUSTMENT_INTERVAL;
    let actual_time = target_time * 2; // Blocks too slow

    let new_bits = adjust_difficulty(old_bits, actual_time, target_time);

    // Difficulty should decrease (bits should increase or stay same)
    assert!(new_bits >= old_bits);
}

#[test]
fn test_calculate_target_time() {
    let target = calculate_target_time(constants::DIFFICULTY_ADJUSTMENT_INTERVAL);

    // Should be 2016 blocks * 600 seconds
    assert_eq!(target, 2016 * 600);
}

#[test]
fn test_genesis_mining() {
    let mut genesis = Block::genesis();

    // Lower difficulty for testing (0x20ffffff = easier)
    genesis.header.bits = 0x20ffffff;

    // Try mining with limited iterations
    let result = mine_block(genesis.clone(), Some(10_000_000));

    if let Some((mined_block, hash)) = result {
        assert!(verify_pow(&mined_block));
        assert_ne!(hash, Hash256::zero());
    }
    // If no block found in 10M iterations, that's acceptable for this test
}

#[test]
fn test_verify_pow_invalid() {
    let mut block = Block::genesis();
    block.header.bits = 0x1d00ffff;
    block.header.nonce = 12345; // Random nonce, likely invalid

    // Verify function runs without panic
    let _ = verify_pow(&block);
}

#[test]
fn test_adjust_difficulty_exact_values() {
    let old_bits: u32 = 0x1d00ffff;
    let target_time: u64 = 2016 * 600;

    // Half the target time scales the mantissa down to 0x7fff (floor).
    assert_eq!(adjust_difficulty(old_bits, target_time / 2, target_time), 0x1d007fff);
    // Twice the target time doubles it.
    assert_eq!(adjust_difficulty(old_bits, target_time * 2, target_time), 0x1d01fffe);
    // The observed time is clamped to at most four times the target.
    assert_eq!(
        adjust_difficulty(old_bits, target_time * 100, target_time),
        adjust_difficulty(old_bits, target_time * 4, target_time)
    );
    // The scaled mantissa is capped at the 24-bit maximum.
    assert_eq!(adjust_difficulty(0x1d400000, target_time * 4, target_time), 0x1dffffff);
    // The target time itself leaves the value unchanged.
    assert_eq!(adjust_difficulty(old_bits, target_time, target_time), old_bits);
}

#[test]
fn test_mining_finds_first_nonce_on_easiest_target() {
    let mut block = Block::genesis();
    // Exponent 32 or more denotes the all-maximum target: every digest
    // satisfies it, so the search succeeds at once.
    block.header.bits = 0x20ffffff;
    let (mined, hash) = mine_block(block, Some(10)).expect("easiest target must be found");
    assert_eq!(mined.header.nonce, 0);
    assert_eq!(hash, mined.hash());
    assert!(verify_pow(&mined));
}

#[test]
fn test_mining_exhausts_bound_on_hard_target() {
    let mut block = Block::genesis();
    // Exponent 3, mantissa 1: the target value is 1, which a digest all
    // but never satisfies.
    block.header.bits = 0x03000001;
    assert!(mine_block(block.clone(), Some(50)).is_none());
    assert!(!verify_pow(&block));
}

#[test]
fn test_mining_bound_is_exclusive() {
    let mut block = Block::genesis();
    block.header.bits = 0x20ffffff;
    // A bound of zero tries no nonce at all.
    assert!(mine_block(block, Some(0)).is_none());
}

#[test]
fn test_parse_hex_or_decimal_values() {
    assert_eq!(parse_hex_or_decimal("0x1d00ffff"), Ok(0x1d00ffff));
    assert_eq!(parse_hex_or_decimal("0x1F0FFFFF"), Ok(0x1f0fffff));
    assert_eq!(parse_hex_or_decimal("12345"), Ok(12345));
    assert_eq!(parse_hex_or_decimal("+7"), Ok(7));
    assert_eq!(parse_hex_or_decimal("4294967295"), Ok(u32::MAX));

    assert!(parse_hex_or_decimal("").is_err());
    assert!(parse_hex_or_decimal("0x").is_err());
    assert!(parse_hex_or_decimal("0xzz").is_err());
    assert!(parse_hex_or_decimal("12a").is_err());
    assert!(parse_hex_or_decimal("4294967296").is_err());
    assert!(parse_hex_or_decimal("0x100000000").is_err());
    assert!(parse_hex_or_decimal("-5").is_err());
}
