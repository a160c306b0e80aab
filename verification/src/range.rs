//! The range of prices that a new pool covers.
//!
//! The price that the two amounts stand for is widened to a window of about
//! thirty percent to either side, and the window is cut to the bounds that the
//! market maker accepts for any pool.

use crate::bigmath::{
    floor_sqrt, is_floor_sqrt, lemma_pow2_128, pow2_128, pow2_192, pow2_256, sqrt_u256, U256,
};
use crate::error::ErrorCode;
use vstd::math::{max, min};
use vstd::pervasive::unreached;
use vstd::prelude::*;

verus! {

/// The lowest square-root price that the market maker accepts.
pub const MIN_SQRT_PRICE: u128 = 4295048016;

/// The highest square-root price that the market maker accepts.
pub const MAX_SQRT_PRICE: u128 = 79226673521066979257578248091;

/// The lower end of the window in ten-thousandths of the estimated price: the
/// square root of 0.7.
pub const LOWER_FACTOR: u32 = 8367;

/// The upper end of the window in ten-thousandths of the estimated price: the
/// square root of 1.3.
pub const UPPER_FACTOR: u32 = 11402;

/// The square-root price that the amounts stand for: the rounded-down root of
/// `amount_a * 2^128 / total_pool_amount_b`.
pub open spec fn estimated_sqrt_price(amount_a: int, total_pool_amount_b: int) -> int {
    floor_sqrt((amount_a * pow2_128() / total_pool_amount_b) as nat) as int
}

/// The lower bound of the range around an estimated square-root price.
pub open spec fn range_sqrt_min(estimated_sqrt: int) -> int {
    max(estimated_sqrt * LOWER_FACTOR as int / 10_000, MIN_SQRT_PRICE as int)
}

/// The upper bound of the range around an estimated square-root price.
pub open spec fn range_sqrt_max(estimated_sqrt: int) -> int {
    min(estimated_sqrt * UPPER_FACTOR as int / 10_000, MAX_SQRT_PRICE as int)
}

/// What [`estimate_range`] returns: an overflow where the pool amount is zero,
/// a refusal where the range is empty, and else the range.
pub open spec fn estimate_range_spec(amount_a: int, total_pool_amount_b: int) -> Result<
    (u128, u128),
    ErrorCode,
> {
    let estimated_sqrt = estimated_sqrt_price(amount_a, total_pool_amount_b);
    if total_pool_amount_b == 0 {
        Err(ErrorCode::ArithmeticOverflow)
    } else if range_sqrt_min(estimated_sqrt) >= range_sqrt_max(estimated_sqrt) {
        Err(ErrorCode::InvalidPrecondition)
    } else {
        Ok((range_sqrt_min(estimated_sqrt) as u128, range_sqrt_max(estimated_sqrt) as u128))
    }
}

/// The root of a number below 2^192 is below 2^96.
proof fn lemma_root_of_192_bits(n: nat, root: nat)
    requires
        n < pow2_192(),
        is_floor_sqrt(n, root),
    ensures
        root < 0x1_0000_0000_0000_0000_0000_0000,
{
    if root >= 0x1_0000_0000_0000_0000_0000_0000 {
        assert(root * root >= 0x1_0000_0000_0000_0000_0000_0000 * 0x1_0000_0000_0000_0000_0000_0000)
            by (nonlinear_arith)
            requires
                root >= 0x1_0000_0000_0000_0000_0000_0000,
        ;
    }
}

/// A 64-bit amount scaled by 2^128 and divided is below 2^192.
proof fn lemma_scaled_amount_bound(amount: int, divisor: int)
    requires
        0 <= amount <= u64::MAX,
        0 < divisor,
    ensures
        0 <= amount * pow2_128() < pow2_192(),
        0 <= amount * pow2_128() / divisor < pow2_192(),
{
    assert(0 <= amount * pow2_128() < pow2_192()) by (nonlinear_arith)
        requires
            0 <= amount <= u64::MAX,
            pow2_128() == u128::MAX + 1,
            pow2_192() == (u64::MAX + 1) * (u128::MAX + 1),
    ;
    let x = amount * pow2_128();
    assert(0 <= x / divisor <= x) by (nonlinear_arith)
        requires
            0 <= x,
            0 < divisor,
    ;
}

/// A square-root price scaled by a factor in ten-thousandths.
fn scale_sqrt_price(sqrt_price: u128, factor: u32) -> (r: u128)
    requires
        sqrt_price < 0x1_0000_0000_0000_0000_0000_0000,
        factor <= 20_000,
    ensures
        r == sqrt_price * factor / 10_000,
{
    proof {
        assert(0 <= sqrt_price * factor < pow2_256()) by (nonlinear_arith)
            requires
                0 <= sqrt_price < 0x1_0000_0000_0000_0000_0000_0000,
                0 <= factor <= 20_000,
                pow2_256() > 0x1_0000_0000_0000_0000_0000_0000 * 20_000,
        ;
        let x = sqrt_price * factor;
        assert(x / 10_000 <= u128::MAX) by (nonlinear_arith)
            requires
                x == sqrt_price * factor,
                0 <= sqrt_price < 0x1_0000_0000_0000_0000_0000_0000,
                0 <= factor <= 20_000,
        ;
    }
    let product = match U256::from_u128(sqrt_price).checked_mul(U256::from_u128(factor as u128)) {
        Some(product) => product,
        None => unreached(),
    };
    let scaled = match product.checked_div(U256::from_u128(10_000)) {
        Some(scaled) => scaled,
        None => unreached(),
    };
    match scaled.to_u128() {
        Some(r) => r,
        None => unreached(),
    }
}

/// The range of square-root prices for a pool that is to hold `amount_a` of
/// token A against `total_pool_amount_b` of token B.
///
/// The call fails where the pool amount is zero, and where the two bounds
/// leave no price between them. A range that it returns lies within the
/// bounds that the market maker accepts.
pub fn estimate_range(amount_a: u64, total_pool_amount_b: u64) -> (r: Result<
    (u128, u128),
    ErrorCode,
>)
    ensures
        r == estimate_range_spec(amount_a as int, total_pool_amount_b as int),
        r matches Ok(range) ==> MIN_SQRT_PRICE <= range.0 < range.1 <= MAX_SQRT_PRICE,
{
    proof {
        lemma_pow2_128();
        lemma_scaled_amount_bound(amount_a as int, 1);
    }
    let shifted = match U256::from_u128(amount_a as u128).checked_shl(128) {
        Some(shifted) => shifted,
        None => unreached(),
    };
    let estimated_price = match shifted.checked_div(U256::from_u128(total_pool_amount_b as u128)) {
        Some(estimated_price) => estimated_price,
        None => {
            return Err(ErrorCode::ArithmeticOverflow);
        },
    };
    let estimated_sqrt = sqrt_u256(estimated_price);
    proof {
        lemma_scaled_amount_bound(amount_a as int, total_pool_amount_b as int);
        lemma_root_of_192_bits(estimated_price.value(), estimated_sqrt as nat);
    }
    let lower = scale_sqrt_price(estimated_sqrt, LOWER_FACTOR);
    let upper = scale_sqrt_price(estimated_sqrt, UPPER_FACTOR);
    let range_sqrt_min = if lower > MIN_SQRT_PRICE {
        lower
    } else {
        MIN_SQRT_PRICE
    };
    let range_sqrt_max = if upper < MAX_SQRT_PRICE {
        upper
    } else {
        MAX_SQRT_PRICE
    };
    if range_sqrt_min >= range_sqrt_max {
        return Err(ErrorCode::InvalidPrecondition);
    }
    Ok((range_sqrt_min, range_sqrt_max))
}

} // verus!
