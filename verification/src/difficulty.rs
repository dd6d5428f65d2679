//! Difficulty adjustment.
//!
//! The compact difficulty value is recalibrated at epoch boundaries from
//! the observed versus target elapsed time.  The computation is pure
//! integer arithmetic, so two conforming nodes reproduce it bit for bit.

use vstd::prelude::*;
use crate::constants::BLOCK_TIME_SECONDS;

verus! {

/// The elapsed time used for the adjustment: the observed time clamped to
/// within a factor of four of the target, bounding the adjustment per
/// epoch.
pub open spec fn spec_clamped_time(actual_time: u64, target_time: u64) -> int {
    let lo = target_time as int / 4;
    let hi = target_time as int * 4;
    if actual_time < lo {
        lo
    } else if actual_time > hi {
        hi
    } else {
        actual_time as int
    }
}

/// The largest value the 24-bit mantissa field can hold.
pub open spec fn spec_max_mantissa() -> int {
    0x00ffffff
}

/// The adjusted compact difficulty: the mantissa is scaled by the ratio
/// of clamped observed time to target time (rounding down) and capped at
/// the mantissa field's maximum; the exponent is unchanged.
pub open spec fn spec_adjust_difficulty(old_bits: u32, actual_time: u64, target_time: u64) -> u32 {
    let exponent = old_bits >> 24;
    let mantissa = (old_bits & 0x00ffffff) as int;
    let scaled = mantissa * spec_clamped_time(actual_time, target_time) / target_time as int;
    let new_mantissa = if scaled > spec_max_mantissa() {
        spec_max_mantissa()
    } else {
        scaled
    };
    (exponent << 24) | (new_mantissa as u32 & 0x00ffffff)
}

/// Recalibrate the compact difficulty from observed versus target elapsed
/// time.  Blocks arriving faster than the target shrink the mantissa
/// (a smaller target is harder to satisfy); blocks arriving slower grow
/// it, up to the mantissa field's maximum.
pub fn adjust_difficulty(old_bits: u32, actual_time: u64, target_time: u64) -> (r: u32)
    requires
        target_time >= 1,
    ensures
        r == spec_adjust_difficulty(old_bits, actual_time, target_time),
{
    let exponent = old_bits >> 24;
    let mantissa = old_bits & 0x00ffffff;
    proof {
        assert(old_bits & 0x00ffffff <= 0x00ffffff) by (bit_vector);
    }

    let lo: u128 = (target_time / 4) as u128;
    let hi: u128 = (target_time as u128) * 4;
    let actual: u128 = actual_time as u128;
    let clamped: u128 = if actual < lo {
        lo
    } else if actual > hi {
        hi
    } else {
        actual
    };
    proof {
        assert(clamped == spec_clamped_time(actual_time, target_time));
        assert((mantissa as u128) * clamped <= 0x1000000 * (4 * 0xffffffffffffffffu128))
            by (nonlinear_arith)
            requires
                mantissa as u128 <= 0x1000000,
                0 <= clamped <= 4 * 0xffffffffffffffffu128,
        ;
    }

    let scaled: u128 = (mantissa as u128) * clamped / (target_time as u128);
    let new_mantissa: u32 = if scaled > 0x00ffffff {
        0x00ffffff
    } else {
        scaled as u32
    };
    (exponent << 24) | (new_mantissa & 0x00ffffff)
}

/// The expected elapsed time for a window of blocks: the block count
/// times the per-block time target.
pub fn calculate_target_time(num_blocks: u64) -> (r: u64)
    requires
        num_blocks * BLOCK_TIME_SECONDS <= u64::MAX,
    ensures
        r == num_blocks * BLOCK_TIME_SECONDS,
{
    num_blocks * BLOCK_TIME_SECONDS
}

/// Blocks arriving no slower than the target never raise the compact
/// difficulty value, and blocks arriving no faster never lower it: the
/// adjusted value moves with the observed elapsed time.
pub proof fn lemma_adjust_monotonic(old_bits: u32, actual_time: u64, target_time: u64)
    requires
        target_time >= 1,
    ensures
        actual_time <= target_time ==> spec_adjust_difficulty(
            old_bits,
            actual_time,
            target_time,
        ) <= old_bits,
        actual_time >= target_time ==> spec_adjust_difficulty(
            old_bits,
            actual_time,
            target_time,
        ) >= old_bits,
{
    let m = (old_bits & 0x00ffffff) as int;
    let t = target_time as int;
    let c = spec_clamped_time(actual_time, target_time);
    let scaled = m * c / t;
    let nm = if scaled > spec_max_mantissa() {
        spec_max_mantissa()
    } else {
        scaled
    };
    assert(old_bits & 0x00ffffff <= 0x00ffffff) by (bit_vector);
    assert(old_bits == ((old_bits >> 24) << 24) | (old_bits & 0x00ffffff)) by (bit_vector);
    assert(m * t / t == m) by (nonlinear_arith)
        requires
            t >= 1,
    ;

    if actual_time <= target_time {
        assert(c <= t && c >= 0);
        assert(m * c <= m * t) by (nonlinear_arith)
            requires
                m >= 0,
                c <= t,
        ;
        vstd::arithmetic::div_mod::lemma_div_is_ordered(m * c, m * t, t);
        assert(scaled <= m);
        assert(m * c >= 0) by (nonlinear_arith)
            requires
                m >= 0,
                c >= 0,
        ;
        vstd::arithmetic::div_mod::lemma_div_pos_is_pos(m * c, t);
        let nmu = nm as u32;
        assert(nmu & 0x00ffffff == nmu) by (bit_vector)
            requires
                nmu <= 0x00ffffff,
        ;
        assert(((old_bits >> 24) << 24) | nmu <= ((old_bits >> 24) << 24) | (old_bits
            & 0x00ffffff)) by (bit_vector)
            requires
                nmu <= old_bits & 0x00ffffff,
        ;
    }
    if actual_time >= target_time {
        assert(c >= t);
        assert(m * c >= m * t) by (nonlinear_arith)
            requires
                m >= 0,
                c >= t,
        ;
        vstd::arithmetic::div_mod::lemma_div_is_ordered(m * t, m * c, t);
        assert(scaled >= m);
        assert(nm >= m);
        let nmu = nm as u32;
        assert(nmu & 0x00ffffff == nmu) by (bit_vector)
            requires
                nmu <= 0x00ffffff,
        ;
        assert(((old_bits >> 24) << 24) | nmu >= ((old_bits >> 24) << 24) | (old_bits
            & 0x00ffffff)) by (bit_vector)
            requires
                old_bits & 0x00ffffff <= nmu <= 0x00ffffff,
        ;
    }
}

} // verus!
