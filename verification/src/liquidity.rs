//! Liquidity of a position from two token amounts and a price range.
//!
//! Each token on its own bounds the liquidity that it can back at the chosen
//! price. The position gets the smaller of the two, so that neither amount is
//! exceeded.

use crate::bigmath::{lemma_pow2_128, min_u256, pow2_128, pow2_256, U256};
use crate::error::ErrorCode;
use vstd::math::min;
use vstd::prelude::*;

verus! {

/// The liquidity that `amount_a` of token A backs between the price and the
/// upper bound of the range: `amount_a * sqrt_max * sqrt_price / (sqrt_max -
/// sqrt_price)`, rounded down.
pub open spec fn liquidity_from_a(amount_a: int, sqrt_price: int, sqrt_max_price: int) -> int {
    amount_a * sqrt_max_price * sqrt_price / (sqrt_max_price - sqrt_price)
}

/// The liquidity that `amount_b` of token B backs between the lower bound of
/// the range and the price: `amount_b * 2^128 / (sqrt_price - sqrt_min)`,
/// rounded down.
pub open spec fn liquidity_from_b(amount_b: int, sqrt_price: int, sqrt_min_price: int) -> int {
    amount_b * pow2_128() / (sqrt_price - sqrt_min_price)
}

/// The liquidity of the position: the smaller of what each token backs.
pub open spec fn liquidity_spec(
    amount_a: int,
    amount_b: int,
    sqrt_price: int,
    sqrt_min_price: int,
    sqrt_max_price: int,
) -> int {
    min(
        liquidity_from_a(amount_a, sqrt_price, sqrt_max_price),
        liquidity_from_b(amount_b, sqrt_price, sqrt_min_price),
    )
}

/// The inputs on which the liquidity can be computed: the price lies strictly
/// inside the range, the product for token A fits 256 bits, and the liquidity
/// fits 128 bits.
pub open spec fn liquidity_is_defined(
    amount_a: int,
    amount_b: int,
    sqrt_price: int,
    sqrt_min_price: int,
    sqrt_max_price: int,
) -> bool {
    &&& sqrt_min_price < sqrt_price < sqrt_max_price
    &&& amount_a * sqrt_max_price * sqrt_price < pow2_256()
    &&& liquidity_spec(amount_a, amount_b, sqrt_price, sqrt_min_price, sqrt_max_price)
        <= u128::MAX
}

/// The liquidity of a position is at most what either token backs alone, and
/// it is what one of them backs.
pub proof fn lemma_liquidity_is_minimum(
    amount_a: int,
    amount_b: int,
    sqrt_price: int,
    sqrt_min_price: int,
    sqrt_max_price: int,
)
    ensures
        liquidity_spec(amount_a, amount_b, sqrt_price, sqrt_min_price, sqrt_max_price)
            <= liquidity_from_a(amount_a, sqrt_price, sqrt_max_price),
        liquidity_spec(amount_a, amount_b, sqrt_price, sqrt_min_price, sqrt_max_price)
            <= liquidity_from_b(amount_b, sqrt_price, sqrt_min_price),
        liquidity_spec(amount_a, amount_b, sqrt_price, sqrt_min_price, sqrt_max_price)
            == liquidity_from_a(amount_a, sqrt_price, sqrt_max_price) || liquidity_spec(
            amount_a,
            amount_b,
            sqrt_price,
            sqrt_min_price,
            sqrt_max_price,
        ) == liquidity_from_b(amount_b, sqrt_price, sqrt_min_price),
{
}

/// Inside a range of 128-bit prices, the liquidity is zero exactly where one
/// of the two amounts is zero.
pub proof fn lemma_liquidity_positive(
    amount_a: int,
    amount_b: int,
    sqrt_price: int,
    sqrt_min_price: int,
    sqrt_max_price: int,
)
    requires
        0 <= amount_a,
        0 <= amount_b,
        0 <= sqrt_min_price < sqrt_price < sqrt_max_price,
        sqrt_price <= u128::MAX,
    ensures
        0 <= liquidity_spec(amount_a, amount_b, sqrt_price, sqrt_min_price, sqrt_max_price),
        liquidity_spec(amount_a, amount_b, sqrt_price, sqrt_min_price, sqrt_max_price) > 0 <==> (
        amount_a > 0 && amount_b > 0),
{
    let width_a = sqrt_max_price - sqrt_price;
    let width_b = sqrt_price - sqrt_min_price;
    let product = amount_a * sqrt_max_price * sqrt_price;
    let shifted = amount_b * pow2_128();
    assert(0 <= product && (amount_a > 0 ==> product >= width_a) && (amount_a == 0 ==> product
        == 0)) by (nonlinear_arith)
        requires
            product == amount_a * sqrt_max_price * sqrt_price,
            0 <= amount_a,
            1 <= sqrt_price < sqrt_max_price,
            width_a == sqrt_max_price - sqrt_price,
    ;
    assert(0 <= product / width_a && (product >= width_a ==> product / width_a > 0) && (product
        == 0 ==> product / width_a == 0)) by (nonlinear_arith)
        requires
            0 <= product,
            0 < width_a,
    ;
    assert(0 <= shifted && (amount_b > 0 ==> shifted >= width_b) && (amount_b == 0 ==> shifted
        == 0)) by (nonlinear_arith)
        requires
            shifted == amount_b * pow2_128(),
            0 <= amount_b,
            0 < width_b <= u128::MAX,
            pow2_128() == u128::MAX + 1,
    ;
    assert(0 <= shifted / width_b && (shifted >= width_b ==> shifted / width_b > 0) && (shifted
        == 0 ==> shifted / width_b == 0)) by (nonlinear_arith)
        requires
            0 <= shifted,
            0 < width_b,
    ;
}

/// What [`calculate_liquidity`] returns: the liquidity where it is defined, and
/// an overflow where it is not.
pub open spec fn calculate_liquidity_spec(
    amount_a: int,
    amount_b: int,
    sqrt_price: int,
    sqrt_min_price: int,
    sqrt_max_price: int,
) -> Result<u128, ErrorCode> {
    if liquidity_is_defined(amount_a, amount_b, sqrt_price, sqrt_min_price, sqrt_max_price) {
        Ok(
            liquidity_spec(amount_a, amount_b, sqrt_price, sqrt_min_price, sqrt_max_price) as u128,
        )
    } else {
        Err(ErrorCode::ArithmeticOverflow)
    }
}

/// The liquidity of a position that holds `token_a_amount` and
/// `token_b_amount` at `sqrt_price`, in a range from `sqrt_min_price` to
/// `sqrt_max_price`.
///
/// The price may not lie outside the range. On a bound of the range, and
/// where a product or the result is too large, the call fails.
pub fn calculate_liquidity(
    token_a_amount: u64,
    token_b_amount: u64,
    sqrt_price: u128,
    sqrt_min_price: u128,
    sqrt_max_price: u128,
) -> (r: Result<u128, ErrorCode>)
    requires
        sqrt_min_price <= sqrt_price <= sqrt_max_price,
    ensures
        r == calculate_liquidity_spec(
            token_a_amount as int,
            token_b_amount as int,
            sqrt_price as int,
            sqrt_min_price as int,
            sqrt_max_price as int,
        ),
        r matches Ok(liquidity) ==> {
            &&& liquidity <= liquidity_from_a(
                token_a_amount as int,
                sqrt_price as int,
                sqrt_max_price as int,
            )
            &&& liquidity <= liquidity_from_b(
                token_b_amount as int,
                sqrt_price as int,
                sqrt_min_price as int,
            )
            &&& liquidity > 0 <==> (token_a_amount > 0 && token_b_amount > 0)
        },
{
    let amount_a = U256::from_u128(token_a_amount as u128);
    let upper = U256::from_u128(sqrt_max_price);
    let price = U256::from_u128(sqrt_price);
    proof {
        assert(token_a_amount * sqrt_max_price < pow2_256()) by (nonlinear_arith)
            requires
                0 <= token_a_amount <= u64::MAX,
                0 <= sqrt_max_price <= u128::MAX,
                pow2_256() == (u128::MAX + 1) * (u128::MAX + 1),
        ;
    }
    let product = match amount_a.checked_mul(upper) {
        Some(partial) => match partial.checked_mul(price) {
            Some(product) => product,
            None => {
                return Err(ErrorCode::ArithmeticOverflow);
            },
        },
        None => {
            return Err(ErrorCode::ArithmeticOverflow);
        },
    };
    let from_a = match product.checked_div(U256::from_u128(sqrt_max_price - sqrt_price)) {
        Some(from_a) => from_a,
        None => {
            return Err(ErrorCode::ArithmeticOverflow);
        },
    };
    proof {
        lemma_pow2_128();
        assert(token_b_amount * pow2_128() < pow2_256()) by (nonlinear_arith)
            requires
                0 <= token_b_amount <= u64::MAX,
                pow2_128() == u128::MAX + 1,
                pow2_256() == (u128::MAX + 1) * (u128::MAX + 1),
        ;
    }
    let shifted = match U256::from_u128(token_b_amount as u128).checked_shl(128) {
        Some(shifted) => shifted,
        None => {
            return Err(ErrorCode::ArithmeticOverflow);
        },
    };
    let from_b = match shifted.checked_div(U256::from_u128(sqrt_price - sqrt_min_price)) {
        Some(from_b) => from_b,
        None => {
            return Err(ErrorCode::ArithmeticOverflow);
        },
    };
    proof {
        lemma_liquidity_positive(
            token_a_amount as int,
            token_b_amount as int,
            sqrt_price as int,
            sqrt_min_price as int,
            sqrt_max_price as int,
        );
    }
    match min_u256(from_a, from_b).to_u128() {
        Some(liquidity) => Ok(liquidity),
        None => Err(ErrorCode::ArithmeticOverflow),
    }
}

} // verus!
