//! The opening price of a pool.
//!
//! Given the two amounts that a position is to hold and the range of prices it
//! is to cover, there is one price at which both amounts are used in full: the
//! price at which token A and token B back the same liquidity. It is the
//! positive root of a quadratic, and is found in closed form.

use crate::bigmath::{
    floor_sqrt, is_floor_sqrt, lemma_floor_sqrt_exists, lemma_pow2_128, pow2_128, pow2_256,
    sqrt_u256, U256,
};
use crate::error::ErrorCode;
use vstd::pervasive::unreached;
use vstd::prelude::*;

verus! {

/// The price that the amounts stand for: `amount_b * 2^128 / amount_a`,
/// rounded down.
pub open spec fn amount_ratio(amount_a: int, amount_b: int) -> int {
    amount_b * pow2_128() / amount_a
}

/// The linear coefficient of the quadratic: the ratio of the amounts over the
/// upper bound, less the lower bound. It is negative where the ratio is small.
pub open spec fn price_offset(
    amount_a: int,
    amount_b: int,
    min_sqrt_price: int,
    max_sqrt_price: int,
) -> int {
    amount_ratio(amount_a, amount_b) / max_sqrt_price - min_sqrt_price
}

/// Four times the ratio of the amounts, rounded down once.
pub open spec fn quadruple_ratio(amount_a: int, amount_b: int) -> int {
    4 * (amount_b * pow2_128()) / amount_a
}

/// What the square root is taken of: the square of the offset plus four times
/// the ratio of the amounts.
pub open spec fn price_radicand(
    amount_a: int,
    amount_b: int,
    min_sqrt_price: int,
    max_sqrt_price: int,
) -> int {
    let offset = price_offset(amount_a, amount_b, min_sqrt_price, max_sqrt_price);
    offset * offset + quadruple_ratio(amount_a, amount_b)
}

/// The opening price: half of the rounded-down square root of the radicand
/// less the offset, rounded down.
pub open spec fn init_price_spec(
    amount_a: int,
    amount_b: int,
    min_sqrt_price: int,
    max_sqrt_price: int,
) -> int {
    let offset = price_offset(amount_a, amount_b, min_sqrt_price, max_sqrt_price);
    let radicand = price_radicand(amount_a, amount_b, min_sqrt_price, max_sqrt_price);
    (floor_sqrt(radicand as nat) - offset) / 2
}

/// The root of a sum of a square and a number that is not negative is at least
/// the number that was squared.
proof fn lemma_root_covers_offset(magnitude: int, rest: int, root: int)
    requires
        0 <= magnitude,
        0 <= rest,
        0 <= root,
        is_floor_sqrt((magnitude * magnitude + rest) as nat, root as nat),
    ensures
        magnitude <= root,
{
    assert(0 <= magnitude * magnitude) by (nonlinear_arith);
    if root < magnitude {
        assert((root + 1) * (root + 1) <= magnitude * magnitude) by (nonlinear_arith)
            requires
                0 <= root,
                root + 1 <= magnitude,
        ;
    }
}

/// The solved price is the rounded-down positive root of the quadratic
/// `x * x + offset * x - ratio`: four times the quadratic's first two terms
/// are at most four times the ratio at the price, and more than that one step
/// above it. This is the condition that both tokens back the same liquidity,
/// in the integers that the solver works with.
pub proof fn lemma_init_price_balances(
    amount_a: int,
    amount_b: int,
    min_sqrt_price: int,
    max_sqrt_price: int,
)
    requires
        0 < amount_a,
        0 <= amount_b,
        0 <= min_sqrt_price,
        0 < max_sqrt_price,
    ensures
        ({
            let s = init_price_spec(amount_a, amount_b, min_sqrt_price, max_sqrt_price);
            let offset = price_offset(amount_a, amount_b, min_sqrt_price, max_sqrt_price);
            let ratio = quadruple_ratio(amount_a, amount_b);
            &&& 0 <= s
            &&& 0 <= s + offset
            &&& 4 * (s * (s + offset)) <= ratio
            &&& ratio < 4 * ((s + 1) * (s + 1 + offset))
        }),
{
    let offset = price_offset(amount_a, amount_b, min_sqrt_price, max_sqrt_price);
    let ratio = quadruple_ratio(amount_a, amount_b);
    let radicand = price_radicand(amount_a, amount_b, min_sqrt_price, max_sqrt_price);
    let s = init_price_spec(amount_a, amount_b, min_sqrt_price, max_sqrt_price);
    let magnitude = if offset >= 0 {
        offset
    } else {
        -offset
    };
    assert(0 <= ratio) by (nonlinear_arith)
        requires
            ratio == 4 * (amount_b * pow2_128()) / amount_a,
            0 < amount_a,
            0 <= amount_b,
            0 < pow2_128(),
    ;
    assert(offset * offset == magnitude * magnitude && 0 <= offset * offset) by (nonlinear_arith)
        requires
            magnitude == offset || magnitude == -offset,
    ;
    lemma_floor_sqrt_exists(radicand as nat);
    let root = floor_sqrt(radicand as nat) as int;
    lemma_root_covers_offset(magnitude, ratio, root);
    let twice = root - offset;
    assert(0 <= twice && 2 * s <= twice && twice <= 2 * s + 1);
    // The root lies between 2s + offset and 2s + offset + 1.
    let low = 2 * s + offset;
    assert(0 <= low <= root && root + 1 <= low + 2);
    assert(low * low <= root * root) by (nonlinear_arith)
        requires
            0 <= low <= root,
    ;
    assert((root + 1) * (root + 1) <= (low + 2) * (low + 2)) by (nonlinear_arith)
        requires
            0 <= root + 1 <= low + 2,
    ;
    assert(low * low == 4 * (s * (s + offset)) + offset * offset) by (nonlinear_arith)
        requires
            low == 2 * s + offset,
    ;
    assert((low + 2) * (low + 2) == 4 * ((s + 1) * (s + 1 + offset)) + offset * offset)
        by (nonlinear_arith)
        requires
            low == 2 * s + offset,
    ;
}

/// What [`calculate_init_price`] returns: a refusal of a zero amount, an
/// overflow where the radicand does not fit 256 bits, and else the price.
pub open spec fn calculate_init_price_spec(
    amount_a: int,
    amount_b: int,
    min_sqrt_price: int,
    max_sqrt_price: int,
) -> Result<u128, ErrorCode> {
    if amount_a == 0 || amount_b == 0 {
        Err(ErrorCode::InvalidPrecondition)
    } else if price_radicand(amount_a, amount_b, min_sqrt_price, max_sqrt_price) >= pow2_256() {
        Err(ErrorCode::ArithmeticOverflow)
    } else {
        Ok(init_price_spec(amount_a, amount_b, min_sqrt_price, max_sqrt_price) as u128)
    }
}

/// The opening price of a pool that is to hold `token_a_amount` and
/// `token_b_amount` in a range from `min_sqrt_price` to `max_sqrt_price`.
///
/// Both amounts must be positive. The upper bound may not be zero. The call
/// fails where the radicand does not fit 256 bits. Whether the price lies in
/// the range is for the caller to test.
pub fn calculate_init_price(
    token_a_amount: u64,
    token_b_amount: u64,
    min_sqrt_price: u128,
    max_sqrt_price: u128,
) -> (r: Result<u128, ErrorCode>)
    requires
        max_sqrt_price > 0,
    ensures
        r == calculate_init_price_spec(
            token_a_amount as int,
            token_b_amount as int,
            min_sqrt_price as int,
            max_sqrt_price as int,
        ),
        r matches Ok(sqrt_price) ==> sqrt_price == init_price_spec(
            token_a_amount as int,
            token_b_amount as int,
            min_sqrt_price as int,
            max_sqrt_price as int,
        ),
{
    if token_a_amount == 0 || token_b_amount == 0 {
        return Err(ErrorCode::InvalidPrecondition);
    }
    let ghost offset = price_offset(
        token_a_amount as int,
        token_b_amount as int,
        min_sqrt_price as int,
        max_sqrt_price as int,
    );
    let ghost quadruple = quadruple_ratio(token_a_amount as int, token_b_amount as int);
    let a = U256::from_u128(token_a_amount as u128);
    let pa = U256::from_u128(min_sqrt_price);
    let pb = U256::from_u128(max_sqrt_price);
    proof {
        lemma_pow2_128();
        assert(4 * (token_b_amount * pow2_128()) < pow2_256()) by (nonlinear_arith)
            requires
                0 <= token_b_amount <= u64::MAX,
                pow2_128() == u128::MAX + 1,
                pow2_256() == (u128::MAX + 1) * (u128::MAX + 1),
        ;
        assert(0 <= token_b_amount * pow2_128()) by (nonlinear_arith)
            requires
                0 <= token_b_amount,
                0 < pow2_128(),
        ;
        assert(min_sqrt_price * max_sqrt_price < pow2_256()) by (nonlinear_arith)
            requires
                0 <= min_sqrt_price <= u128::MAX,
                0 <= max_sqrt_price <= u128::MAX,
                pow2_256() == (u128::MAX + 1) * (u128::MAX + 1),
        ;
    }
    let b = match U256::from_u128(token_b_amount as u128).checked_shl(128) {
        Some(b) => b,
        None => unreached(),
    };
    let ratio = match b.checked_div(a) {
        Some(ratio) => ratio,
        None => unreached(),
    };
    let range = match pa.checked_mul(pb) {
        Some(range) => range,
        None => unreached(),
    };
    let scaled = match ratio.checked_div(pb) {
        Some(scaled) => scaled,
        None => unreached(),
    };
    let quad = match U256::from_u128(4).checked_mul(b) {
        Some(four_b) => match four_b.checked_div(a) {
            Some(quad) => quad,
            None => unreached(),
        },
        None => unreached(),
    };
    assert(ratio.value() == amount_ratio(token_a_amount as int, token_b_amount as int));
    assert(scaled.value() - pa.value() == offset);
    assert(quad.value() == quadruple);
    assert(0 <= quadruple) by (nonlinear_arith)
        requires
            quadruple == 4 * (token_b_amount * pow2_128()) / (token_a_amount as int),
            0 < token_a_amount,
            0 <= token_b_amount * pow2_128(),
    ;
    let above = range.lt(ratio);
    proof {
        let x = ratio.value() as int;
        let low = min_sqrt_price as int;
        let high = max_sqrt_price as int;
        if above {
            assert(x / high >= low) by (nonlinear_arith)
                requires
                    x > low * high,
                    0 < high,
                    0 <= low,
            ;
        } else {
            assert(x / high <= low) by (nonlinear_arith)
                requires
                    x <= low * high,
                    0 < high,
                    0 <= low,
                    0 <= x,
            ;
        }
    }
    let delta = if above {
        match scaled.checked_sub(pa) {
            Some(delta) => delta,
            None => unreached(),
        }
    } else {
        match pa.checked_sub(scaled) {
            Some(delta) => delta,
            None => unreached(),
        }
    };
    assert(delta.value() * delta.value() == offset * offset) by (nonlinear_arith)
        requires
            delta.value() == offset || delta.value() == -offset,
    ;
    let square = match delta.checked_mul(delta) {
        Some(square) => square,
        None => {
            return Err(ErrorCode::ArithmeticOverflow);
        },
    };
    let radicand = match square.checked_add(quad) {
        Some(radicand) => radicand,
        None => {
            return Err(ErrorCode::ArithmeticOverflow);
        },
    };
    let root = sqrt_u256(radicand);
    proof {
        lemma_root_covers_offset(delta.value() as int, quadruple, root as int);
        delta.lemma_value_bound();
    }
    let wide_root = U256::from_u128(root);
    let twice = if above {
        match wide_root.checked_sub(delta) {
            Some(twice) => twice,
            None => unreached(),
        }
    } else {
        match wide_root.checked_add(delta) {
            Some(twice) => twice,
            None => unreached(),
        }
    };
    let half = match twice.checked_div(U256::from_u128(2)) {
        Some(half) => half,
        None => unreached(),
    };
    match half.to_u128() {
        Some(sqrt_price) => Ok(sqrt_price),
        None => unreached(),
    }
}

/// What [`init_price_in_range`] returns: what [`calculate_init_price`] returns,
/// but for a price outside the bounds, which is refused as infeasible.
pub open spec fn init_price_in_range_spec(
    amount_a: int,
    amount_b: int,
    min_sqrt_price: int,
    max_sqrt_price: int,
) -> Result<u128, ErrorCode> {
    match calculate_init_price_spec(amount_a, amount_b, min_sqrt_price, max_sqrt_price) {
        Err(e) => Err(e),
        Ok(sqrt_price) => if sqrt_price < min_sqrt_price || sqrt_price > max_sqrt_price {
            Err(ErrorCode::InfeasibleRatio)
        } else {
            Ok(sqrt_price)
        },
    }
}

/// The opening price of [`calculate_init_price`], held to the range it was
/// solved for: a price below the lower or above the upper bound means that
/// the range cannot serve the ratio of the amounts, and is refused.
pub fn init_price_in_range(
    token_a_amount: u64,
    token_b_amount: u64,
    min_sqrt_price: u128,
    max_sqrt_price: u128,
) -> (r: Result<u128, ErrorCode>)
    requires
        max_sqrt_price > 0,
    ensures
        r == init_price_in_range_spec(
            token_a_amount as int,
            token_b_amount as int,
            min_sqrt_price as int,
            max_sqrt_price as int,
        ),
        r matches Ok(sqrt_price) ==> min_sqrt_price <= sqrt_price <= max_sqrt_price,
{
    match calculate_init_price(token_a_amount, token_b_amount, min_sqrt_price, max_sqrt_price) {
        Ok(sqrt_price) => {
            if sqrt_price < min_sqrt_price || sqrt_price > max_sqrt_price {
                Err(ErrorCode::InfeasibleRatio)
            } else {
                Ok(sqrt_price)
            }
        },
        Err(e) => Err(e),
    }
}

} // verus!
