//! 256-bit unsigned arithmetic.
//!
//! [`U256`] holds a 256-bit number as four 64-bit limbs. The arithmetic itself is
//! done by the `ruint` crate; each call into it is a small function of this module
//! whose contract is stated over [`U256::value`] and taken on trust. The integer
//! square root and the minimum are built on those calls and proved.

use vstd::arithmetic::power2::{lemma2_to64, lemma_pow2_adds, pow2};
use vstd::pervasive::unreached;
use vstd::prelude::*;

verus! {

/// The weight of the second limb, 2^64.
pub open spec fn pow2_64() -> nat {
    0x1_0000_0000_0000_0000nat
}

/// The weight of the third limb, 2^128.
pub open spec fn pow2_128() -> nat {
    0x1_0000_0000_0000_0000_0000_0000_0000_0000nat
}

/// The weight of the fourth limb, 2^192.
pub open spec fn pow2_192() -> nat {
    0x1_0000_0000_0000_0000_0000_0000_0000_0000_0000_0000_0000_0000nat
}

/// The first number that no [`U256`] holds, 2^256.
pub open spec fn pow2_256() -> nat {
    0x1_0000_0000_0000_0000_0000_0000_0000_0000_0000_0000_0000_0000_0000_0000_0000_0000nat
}

/// A 256-bit unsigned integer: four 64-bit limbs, least significant first.
#[derive(Clone, Copy, Debug)]
pub struct U256 {
    pub limbs: [u64; 4],
}

impl U256 {
    /// The number that the limbs stand for.
    pub open spec fn value(self) -> nat {
        self.limbs[0] as nat + (self.limbs[1] as nat) * pow2_64() + (self.limbs[2] as nat)
            * pow2_128() + (self.limbs[3] as nat) * pow2_192()
    }

    /// Every value is below 2^256.
    pub proof fn lemma_value_bound(self)
        ensures
            self.value() < pow2_256(),
    {
    }

    /// Calls `ruint::Uint::from` on a `u128`. The result stands for the same
    /// number as the argument.
    #[verifier::external_body]
    pub(crate) fn from_u128(x: u128) -> (r: U256)
        ensures
            r.value() == x,
    {
        U256 { limbs: ruint::aliases::U256::from(x).into_limbs() }
    }

    /// Calls `ruint::Uint::checked_add`. The result is the sum where it is below
    /// 2^256, and `None` where it is not.
    #[verifier::external_body]
    pub(crate) fn checked_add(self, rhs: U256) -> (r: Option<U256>)
        ensures
            match r {
                Some(s) => s.value() == self.value() + rhs.value(),
                None => self.value() + rhs.value() >= pow2_256(),
            },
    {
        let a = ruint::aliases::U256::from_limbs(self.limbs);
        let b = ruint::aliases::U256::from_limbs(rhs.limbs);
        match a.checked_add(b) {
            Some(s) => Some(U256 { limbs: s.into_limbs() }),
            None => None,
        }
    }

    /// Calls `ruint::Uint::checked_sub`. The result is the difference where
    /// `rhs` is not the larger, and `None` where it is.
    #[verifier::external_body]
    pub(crate) fn checked_sub(self, rhs: U256) -> (r: Option<U256>)
        ensures
            match r {
                Some(d) => d.value() == self.value() - rhs.value(),
                None => self.value() < rhs.value(),
            },
    {
        let a = ruint::aliases::U256::from_limbs(self.limbs);
        let b = ruint::aliases::U256::from_limbs(rhs.limbs);
        match a.checked_sub(b) {
            Some(d) => Some(U256 { limbs: d.into_limbs() }),
            None => None,
        }
    }

    /// Calls `ruint::Uint::checked_mul`. The result is the product where it is
    /// below 2^256, and `None` where it is not.
    #[verifier::external_body]
    pub(crate) fn checked_mul(self, rhs: U256) -> (r: Option<U256>)
        ensures
            match r {
                Some(p) => p.value() == self.value() * rhs.value(),
                None => self.value() * rhs.value() >= pow2_256(),
            },
    {
        let a = ruint::aliases::U256::from_limbs(self.limbs);
        let b = ruint::aliases::U256::from_limbs(rhs.limbs);
        match a.checked_mul(b) {
            Some(p) => Some(U256 { limbs: p.into_limbs() }),
            None => None,
        }
    }

    /// Calls `ruint::Uint::checked_div`. The result is the quotient rounded
    /// down where `rhs` is not zero, and `None` where it is.
    #[verifier::external_body]
    pub(crate) fn checked_div(self, rhs: U256) -> (r: Option<U256>)
        ensures
            match r {
                Some(q) => rhs.value() != 0 && q.value() == self.value() / rhs.value(),
                None => rhs.value() == 0,
            },
    {
        let a = ruint::aliases::U256::from_limbs(self.limbs);
        let b = ruint::aliases::U256::from_limbs(rhs.limbs);
        match a.checked_div(b) {
            Some(q) => Some(U256 { limbs: q.into_limbs() }),
            None => None,
        }
    }

    /// Calls `ruint::Uint::checked_shl`. The result is the number times
    /// 2^`bits` where that is below 2^256, and `None` where a set bit would be
    /// shifted out.
    #[verifier::external_body]
    pub(crate) fn checked_shl(self, bits: usize) -> (r: Option<U256>)
        ensures
            match r {
                Some(s) => s.value() == self.value() * pow2(bits as nat),
                None => self.value() * pow2(bits as nat) >= pow2_256(),
            },
    {
        let a = ruint::aliases::U256::from_limbs(self.limbs);
        match a.checked_shl(bits) {
            Some(s) => Some(U256 { limbs: s.into_limbs() }),
            None => None,
        }
    }

    /// Calls `lt` of `ruint`'s `PartialOrd` for `Uint` (the operator `<`). The
    /// result says whether `self` is the smaller number.
    #[verifier::external_body]
    pub(crate) fn lt(self, rhs: U256) -> (r: bool)
        ensures
            r == (self.value() < rhs.value()),
    {
        ruint::aliases::U256::from_limbs(self.limbs) < ruint::aliases::U256::from_limbs(rhs.limbs)
    }

    /// Calls `u128::try_from` on a `ruint::Uint`. The result is the number
    /// where it fits 128 bits, and `None` where it does not.
    #[verifier::external_body]
    pub(crate) fn to_u128(self) -> (r: Option<u128>)
        ensures
            match r {
                Some(v) => v == self.value(),
                None => self.value() > u128::MAX,
            },
    {
        u128::try_from(ruint::aliases::U256::from_limbs(self.limbs)).ok()
    }
}

/// The shift by 128 bits is the product with 2^128.
pub proof fn lemma_pow2_128()
    ensures
        pow2(128) == pow2_128(),
{
    lemma2_to64();
    lemma_pow2_adds(64, 64);
}

/// `r` is the square root of `n` rounded down.
pub open spec fn is_floor_sqrt(n: nat, r: nat) -> bool {
    r * r <= n < (r + 1) * (r + 1)
}

/// The square root of `n` rounded down.
pub open spec fn floor_sqrt(n: nat) -> nat {
    choose|r: nat| is_floor_sqrt(n, r)
}

/// At most one number is the rounded-down square root of `n`.
pub proof fn lemma_floor_sqrt_unique(n: nat, r1: nat, r2: nat)
    requires
        is_floor_sqrt(n, r1),
        is_floor_sqrt(n, r2),
    ensures
        r1 == r2,
{
    if r1 < r2 {
        assert((r1 + 1) * (r1 + 1) <= r2 * r2) by (nonlinear_arith)
            requires
                r1 + 1 <= r2,
        ;
    }
    if r2 < r1 {
        assert((r2 + 1) * (r2 + 1) <= r1 * r1) by (nonlinear_arith)
            requires
                r2 + 1 <= r1,
        ;
    }
}

/// A number that squares to at most `n`, while its successor squares to more,
/// is `floor_sqrt(n)`.
pub proof fn lemma_floor_sqrt_is(n: nat, r: nat)
    requires
        is_floor_sqrt(n, r),
    ensures
        floor_sqrt(n) == r,
{
    lemma_floor_sqrt_unique(n, floor_sqrt(n), r);
}

/// Every number has a rounded-down square root.
pub proof fn lemma_floor_sqrt_exists(n: nat)
    ensures
        is_floor_sqrt(n, floor_sqrt(n)),
    decreases n,
{
    if n == 0 {
        assert(is_floor_sqrt(0, 0)) by (nonlinear_arith);
    } else {
        lemma_floor_sqrt_exists((n - 1) as nat);
        let r = floor_sqrt((n - 1) as nat);
        if (r + 1) * (r + 1) <= n {
            assert((r + 1) * (r + 1) == n);
            assert(n < (r + 2) * (r + 2)) by (nonlinear_arith)
                requires
                    (r + 1) * (r + 1) == n,
            ;
            assert(is_floor_sqrt(n, r + 1));
        } else {
            assert(is_floor_sqrt(n, r));
        }
    }
}

/// The smaller of two numbers, and the second where they are equal.
pub fn min_u256(a: U256, b: U256) -> (r: U256)
    ensures
        r.value() == vstd::math::min(a.value() as int, b.value() as int),
        r == a || r == b,
{
    if a.lt(b) {
        a
    } else {
        b
    }
}

/// The square root of a 256-bit number, rounded down. It always fits 128 bits.
pub fn sqrt_u256(radicand: U256) -> (r: u128)
    ensures
        r == floor_sqrt(radicand.value()),
        is_floor_sqrt(radicand.value(), r as nat),
{
    let mut low: u128 = 0;
    let mut high: u128 = u128::MAX;
    proof {
        radicand.lemma_value_bound();
        assert((u128::MAX + 1) * (u128::MAX + 1) == pow2_256()) by (nonlinear_arith);
    }
    while low < high
        invariant
            low <= high,
            low * low <= radicand.value(),
            radicand.value() < (high + 1) * (high + 1),
        decreases high - low,
    {
        let middle: u128 = low + (high - low - 1) / 2 + 1;
        let wide = U256::from_u128(middle);
        proof {
            assert(middle * middle < pow2_256()) by (nonlinear_arith)
                requires
                    0 <= middle <= u128::MAX,
            ;
        }
        let square = match wide.checked_mul(wide) {
            Some(square) => square,
            None => unreached(),
        };
        if radicand.lt(square) {
            high = middle - 1;
        } else {
            low = middle;
        }
    }
    proof {
        lemma_floor_sqrt_is(radicand.value(), low as nat);
    }
    low
}


} // verus!
