//! The fee distribution engine.
//!
//! One cycle takes the settlement-token balance and the grants of a
//! distribution token, and splits the investors' part of the balance over the
//! grants in proportion to what each still has locked. The investors' part is
//! capped twice: by a share of the balance that shrinks as the grants vest, and
//! by a fixed amount per cycle. Whatever is not paid out goes to the creator.

use crate::error::ErrorCode;
use crate::vesting::Grant;
use vstd::math::min;
use vstd::prelude::*;

verus! {

/// A balance below this is dust: the cycle pays nothing out.
pub const DUST_THRESHOLD: u64 = 1_000_000;

/// The largest share of the balance that investors can get, in basis points.
pub const MAX_INVESTOR_SHARE_BPS: u16 = 1_000;

/// The most that one cycle pays out to investors.
pub const DAILY_CAP: u64 = 1_000_000_000;

/// The least number of seconds between two cycles.
pub const COOLDOWN: i64 = 86_400;

/// What one grant receives in one cycle.
#[derive(Clone, Copy, Debug)]
pub struct Payout {
    pub grant_id: u64,
    pub recipient: [u8; 32],
    pub amount: u64,
}

/// The outcome of one cycle: the payouts in the order of their grants, and
/// what is left for the creator.
#[derive(Debug)]
pub struct Shares {
    pub payouts: Vec<Payout>,
    pub creator_remainder: u64,
}

/// What the engine remembers between cycles.
#[derive(Clone, Copy, Debug)]
pub struct DistributionCycleState {
    pub last_distributed_at: i64,
}

/// What a successful cycle hands back.
#[derive(Debug)]
pub struct DistributionResult {
    pub shares: Shares,
    pub new_state: DistributionCycleState,
}

/// The sum of what was deposited into the grants.
pub open spec fn initial_locked(grants: Seq<Grant>) -> int
    decreases grants.len(),
{
    if grants.len() == 0 {
        0
    } else {
        initial_locked(grants.drop_last()) + grants.last().net_deposited
    }
}

/// The sum of what the grants still have locked.
pub open spec fn total_locked(grants: Seq<Grant>) -> int
    decreases grants.len(),
{
    if grants.len() == 0 {
        0
    } else {
        total_locked(grants.drop_last()) + grants.last().locked_spec()
    }
}

/// No grant has vested and withdrawn more than was deposited into it.
pub open spec fn grants_consistent(grants: Seq<Grant>) -> bool {
    forall|i: int| 0 <= i < grants.len() ==> (#[trigger] grants[i]).locked_spec() >= 0
}

/// The grants on which a cycle can be computed: consistent records, with a
/// deposited sum that is not zero and fits 64 bits.
pub open spec fn cycle_is_computable(grants: Seq<Grant>) -> bool {
    grants_consistent(grants) && 0 < initial_locked(grants) <= u64::MAX
}

/// The investors' share of the balance in basis points: the locked fraction of
/// what was deposited, capped.
pub open spec fn eligible_share_bps(total_locked: int, initial_locked: int) -> int {
    min(MAX_INVESTOR_SHARE_BPS as int, total_locked * 10_000 / initial_locked)
}

/// The investors' part of the balance before the cap per cycle.
pub open spec fn investor_fee(balance: int, total_locked: int, initial_locked: int) -> int {
    balance * eligible_share_bps(total_locked, initial_locked) / 10_000
}

/// What one cycle splits over the grants.
pub open spec fn distributable(balance: int, total_locked: int, initial_locked: int) -> int {
    min(investor_fee(balance, total_locked, initial_locked), DAILY_CAP as int)
}

/// The part of `distributable` that falls to a grant with `locked` of the
/// `total_locked`, rounded down.
pub open spec fn payout_amount(distributable: int, locked: int, total_locked: int) -> int {
    distributable * locked / total_locked
}

/// The payouts of a cycle, in the order of the grants. A grant with nothing
/// locked, or whose part rounds down to zero, gets no payout.
pub open spec fn payouts_spec(grants: Seq<Grant>, distributable: int, total_locked: int) -> Seq<
    Payout,
>
    decreases grants.len(),
{
    if grants.len() == 0 {
        Seq::empty()
    } else {
        let rest = payouts_spec(grants.drop_last(), distributable, total_locked);
        let g = grants.last();
        let amount = payout_amount(distributable, g.locked_spec(), total_locked);
        if g.locked_spec() > 0 && amount > 0 {
            rest.push(Payout { grant_id: g.id, recipient: g.recipient, amount: amount as u64 })
        } else {
            rest
        }
    }
}

/// The sum of the amounts of the payouts.
pub open spec fn sum_payouts(payouts: Seq<Payout>) -> int
    decreases payouts.len(),
{
    if payouts.len() == 0 {
        0
    } else {
        sum_payouts(payouts.drop_last()) + payouts.last().amount
    }
}

/// Why a cycle is refused, if it is: the cooldown has not passed, or the
/// balance is worth splitting and the grants are not computable.
pub open spec fn cycle_error(
    now: int,
    balance: int,
    grants: Seq<Grant>,
    last_distributed_at: int,
) -> Option<ErrorCode> {
    if now < last_distributed_at + COOLDOWN {
        Some(ErrorCode::InvalidPrecondition)
    } else if balance >= DUST_THRESHOLD && !cycle_is_computable(grants) {
        Some(ErrorCode::ArithmeticOverflow)
    } else {
        None
    }
}

/// The payouts of a whole cycle: none on dust, and else each grant's part of
/// what is split.
pub open spec fn cycle_payouts(balance: int, grants: Seq<Grant>) -> Seq<Payout> {
    if balance < DUST_THRESHOLD {
        Seq::empty()
    } else {
        payouts_spec(
            grants,
            distributable(balance, total_locked(grants), initial_locked(grants)),
            total_locked(grants),
        )
    }
}

/// What the creator receives in a cycle: nothing on dust, and else the
/// balance less all payouts.
pub open spec fn cycle_remainder(balance: int, grants: Seq<Grant>) -> int {
    if balance < DUST_THRESHOLD {
        0
    } else {
        balance - sum_payouts(cycle_payouts(balance, grants))
    }
}

proof fn lemma_initial_locked_step(grants: Seq<Grant>, i: int)
    requires
        0 <= i < grants.len(),
    ensures
        initial_locked(grants.take(i + 1)) == initial_locked(grants.take(i))
            + grants[i].net_deposited,
        total_locked(grants.take(i + 1)) == total_locked(grants.take(i)) + grants[i].locked_spec(),
{
    assert(grants.take(i + 1).drop_last() =~= grants.take(i));
}

proof fn lemma_payouts_step(grants: Seq<Grant>, i: int, d: int, t: int)
    requires
        0 <= i < grants.len(),
    ensures
        payouts_spec(grants.take(i + 1), d, t) == if grants[i].locked_spec() > 0 && payout_amount(
            d,
            grants[i].locked_spec(),
            t,
        ) > 0 {
            payouts_spec(grants.take(i), d, t).push(
                Payout {
                    grant_id: grants[i].id,
                    recipient: grants[i].recipient,
                    amount: payout_amount(d, grants[i].locked_spec(), t) as u64,
                },
            )
        } else {
            payouts_spec(grants.take(i), d, t)
        },
{
    assert(grants.take(i + 1).drop_last() =~= grants.take(i));
}

proof fn lemma_sum_payouts_push(payouts: Seq<Payout>, p: Payout)
    ensures
        sum_payouts(payouts.push(p)) == sum_payouts(payouts) + p.amount,
{
    assert(payouts.push(p).drop_last() =~= payouts);
}

/// The sums over a prefix of consistent grants are not negative and not above
/// the sums over all of them, and the locked sum is not above the deposited.
proof fn lemma_prefix_sums(grants: Seq<Grant>, i: int)
    requires
        0 <= i <= grants.len(),
        grants_consistent(grants),
    ensures
        0 <= total_locked(grants.take(i)) <= total_locked(grants),
        0 <= initial_locked(grants.take(i)) <= initial_locked(grants),
        total_locked(grants.take(i)) <= initial_locked(grants.take(i)),
    decreases grants.len() - i,
{
    if i == grants.len() {
        assert(grants.take(i) =~= grants);
        lemma_sums_nonnegative(grants);
    } else {
        lemma_prefix_sums(grants, i + 1);
        lemma_initial_locked_step(grants, i);
        lemma_sums_nonnegative(grants.take(i));
    }
}

proof fn lemma_sums_nonnegative(grants: Seq<Grant>)
    requires
        grants_consistent(grants),
    ensures
        0 <= total_locked(grants) <= initial_locked(grants),
    decreases grants.len(),
{
    if grants.len() > 0 {
        let rest = grants.drop_last();
        assert forall|i: int| 0 <= i < rest.len() implies (#[trigger] rest[i]).locked_spec()
            >= 0 by {
            assert(rest[i] == grants[i]);
        }
        lemma_sums_nonnegative(rest);
        assert(grants.last() == grants[grants.len() - 1]);
    }
}

/// What is split over the grants is never more than the balance, nor more than
/// the cap per cycle.
pub proof fn lemma_distributable_bounds(balance: int, total_locked: int, initial_locked: int)
    requires
        0 <= balance,
        0 <= total_locked,
        0 < initial_locked,
    ensures
        0 <= distributable(balance, total_locked, initial_locked) <= balance,
        distributable(balance, total_locked, initial_locked) <= DAILY_CAP,
{
    let bps = eligible_share_bps(total_locked, initial_locked);
    assert(0 <= total_locked * 10_000 / initial_locked) by (nonlinear_arith)
        requires
            0 <= total_locked,
            0 < initial_locked,
    ;
    assert(0 <= bps <= 1_000);
    assert(0 <= balance * bps / 10_000 <= balance) by (nonlinear_arith)
        requires
            0 <= balance,
            0 <= bps <= 1_000,
    ;
}

/// The share of the balance that investors get does not grow when less is
/// locked, the deposited sum being the same.
pub proof fn lemma_share_bps_monotonic(less_locked: int, more_locked: int, initial_locked: int)
    requires
        0 <= less_locked <= more_locked,
        0 < initial_locked,
    ensures
        eligible_share_bps(less_locked, initial_locked) <= eligible_share_bps(
            more_locked,
            initial_locked,
        ),
{
    assert(less_locked * 10_000 / initial_locked <= more_locked * 10_000 / initial_locked)
        by (nonlinear_arith)
        requires
            0 <= less_locked <= more_locked,
            0 < initial_locked,
    ;
}

/// One payout, times the locked total, is at most what is split times the
/// grant's locked amount; and it misses that by less than the locked total.
proof fn lemma_payout_floor(d: int, locked: int, t: int)
    requires
        0 <= d,
        0 <= locked <= t,
        0 < t,
    ensures
        0 <= payout_amount(d, locked, t) <= d,
        payout_amount(d, locked, t) * t <= d * locked,
        d * locked < (payout_amount(d, locked, t) + 1) * t,
{
    let q = d * locked / t;
    assert(0 <= d * locked <= d * t) by (nonlinear_arith)
        requires
            0 <= d,
            0 <= locked <= t,
    ;
    let x = d * locked;
    assert(q == x / t);
    assert(0 <= q && q * t <= x && x < (q + 1) * t) by (nonlinear_arith)
        requires
            q == x / t,
            0 <= x,
            0 < t,
    ;
    assert(q <= d) by (nonlinear_arith)
        requires
            q * t <= x,
            x <= d * t,
            0 < t,
    ;
}

/// The payouts of any prefix of the grants sum to no more than what is split,
/// in proportion to what the prefix has locked.
proof fn lemma_payouts_bounded(grants: Seq<Grant>, d: int, t: int)
    requires
        grants_consistent(grants),
        0 <= d <= u64::MAX,
        0 < t,
        total_locked(grants) <= t,
    ensures
        0 <= sum_payouts(payouts_spec(grants, d, t)),
        sum_payouts(payouts_spec(grants, d, t)) * t <= d * total_locked(grants),
        sum_payouts(payouts_spec(grants, d, t)) <= d,
        payouts_spec(grants, d, t).len() <= grants.len(),
        d * total_locked(grants) < (sum_payouts(payouts_spec(grants, d, t)) + grants.len()) * t
            || grants.len() == 0,
    decreases grants.len(),
{
    if grants.len() > 0 {
        let rest = grants.drop_last();
        let g = grants.last();
        assert forall|i: int| 0 <= i < rest.len() implies (#[trigger] rest[i]).locked_spec()
            >= 0 by {
            assert(rest[i] == grants[i]);
        }
        assert(g == grants[grants.len() - 1]);
        lemma_sums_nonnegative(rest);
        lemma_payouts_bounded(rest, d, t);
        let l = g.locked_spec();
        lemma_payout_floor(d, l, t);
        let a = payout_amount(d, l, t);
        let s = sum_payouts(payouts_spec(rest, d, t));
        let lr = total_locked(rest);
        if l > 0 && a > 0 {
            lemma_sum_payouts_push(
                payouts_spec(rest, d, t),
                Payout { grant_id: g.id, recipient: g.recipient, amount: a as u64 },
            );
        }
        let s2 = sum_payouts(payouts_spec(grants, d, t));
        assert(s2 == s + a) by {
            if !(l > 0 && a > 0) {
                assert(a == 0) by (nonlinear_arith)
                    requires
                        !(l > 0 && a > 0),
                        a == d * l / t,
                        0 <= l,
                        0 <= d,
                        0 < t,
                ;
            }
        }
        assert((s + a) * t <= d * (lr + l)) by (nonlinear_arith)
            requires
                s * t <= d * lr,
                a * t <= d * l,
        ;
        assert(s2 <= d) by (nonlinear_arith)
            requires
                s2 * t <= d * (lr + l),
                lr + l <= t,
                0 <= d,
                0 < t,
        ;
        let n = grants.len() as int;
        assert(d * (lr + l) < (s + a + n) * t) by (nonlinear_arith)
            requires
                d * l < (a + 1) * t,
                n == 1 ==> lr == 0,
                n > 1 ==> d * lr < (s + (n - 1)) * t,
                n >= 1,
                0 < t,
                0 <= s,
        ;
    }
}

/// Nothing is lost and nothing is made in a cycle. The payouts and the
/// creator's part together are never more than the balance; on a balance that
/// is not dust they are the balance exactly, so that what rounding takes from
/// the payouts falls to the creator. The payouts are at most what is split,
/// and fall short of it by less than one unit per grant where anything is
/// locked.
pub proof fn lemma_cycle_conserves_balance(balance: int, grants: Seq<Grant>)
    requires
        0 <= balance <= u64::MAX,
        balance < DUST_THRESHOLD || cycle_is_computable(grants),
    ensures
        0 <= sum_payouts(cycle_payouts(balance, grants)),
        0 <= cycle_remainder(balance, grants),
        sum_payouts(cycle_payouts(balance, grants)) + cycle_remainder(balance, grants) <= balance,
        balance >= DUST_THRESHOLD ==> sum_payouts(cycle_payouts(balance, grants))
            + cycle_remainder(balance, grants) == balance,
        balance >= DUST_THRESHOLD ==> sum_payouts(cycle_payouts(balance, grants))
            <= distributable(balance, total_locked(grants), initial_locked(grants)),
        balance >= DUST_THRESHOLD && total_locked(grants) > 0 ==> distributable(
            balance,
            total_locked(grants),
            initial_locked(grants),
        ) < sum_payouts(cycle_payouts(balance, grants)) + grants.len(),
{
    if balance >= DUST_THRESHOLD {
        let t = total_locked(grants);
        lemma_sums_nonnegative(grants);
        lemma_distributable_bounds(balance, t, initial_locked(grants));
        let d = distributable(balance, t, initial_locked(grants));
        if t > 0 {
            lemma_payouts_bounded(grants, d, t);
            let s = sum_payouts(payouts_spec(grants, d, t));
            let n = grants.len() as int;
            assert(d < s + n) by (nonlinear_arith)
                requires
                    d * t < (s + n) * t,
                    0 < t,
            ;
        } else {
            lemma_nothing_locked_pays_nothing(grants, d, t);
        }
    }
}

/// Grants that have nothing locked receive nothing.
proof fn lemma_nothing_locked_pays_nothing(grants: Seq<Grant>, d: int, t: int)
    requires
        grants_consistent(grants),
        total_locked(grants) == 0,
    ensures
        payouts_spec(grants, d, t) =~= Seq::<Payout>::empty(),
    decreases grants.len(),
{
    if grants.len() > 0 {
        let rest = grants.drop_last();
        assert forall|i: int| 0 <= i < rest.len() implies (#[trigger] rest[i]).locked_spec()
            >= 0 by {
            assert(rest[i] == grants[i]);
        }
        assert(grants.last() == grants[grants.len() - 1]);
        lemma_sums_nonnegative(rest);
        lemma_nothing_locked_pays_nothing(rest, d, t);
    }
}

/// One distribution cycle.
///
/// The cycle is refused while the cooldown since the last one has not passed.
/// Otherwise the time of the cycle is recorded, also where nothing is paid. A
/// balance that is dust pays nothing, not even to the creator. On any other
/// balance each grant with something locked receives its part of what is
/// split, rounded down, parts of zero being left out, and the creator
/// receives all the rest of the balance.
pub fn run(
    now: i64,
    settlement_balance: u64,
    grants: &Vec<Grant>,
    prior_state: DistributionCycleState,
) -> (r: Result<DistributionResult, ErrorCode>)
    ensures
        match r {
            Ok(res) => {
                &&& cycle_error(
                    now as int,
                    settlement_balance as int,
                    grants@,
                    prior_state.last_distributed_at as int,
                ) is None
                &&& res.new_state.last_distributed_at == now
                &&& res.shares.payouts@ == cycle_payouts(settlement_balance as int, grants@)
                &&& res.shares.creator_remainder == cycle_remainder(
                    settlement_balance as int,
                    grants@,
                )
            },
            Err(e) => cycle_error(
                now as int,
                settlement_balance as int,
                grants@,
                prior_state.last_distributed_at as int,
            ) == Some(e),
        },
        r matches Ok(res) ==> {
            &&& sum_payouts(res.shares.payouts@) + res.shares.creator_remainder
                <= settlement_balance
            &&& settlement_balance >= DUST_THRESHOLD ==> sum_payouts(res.shares.payouts@)
                + res.shares.creator_remainder == settlement_balance
        },
{
    if (now as i128) < (prior_state.last_distributed_at as i128) + (COOLDOWN as i128) {
        return Err(ErrorCode::InvalidPrecondition);
    }
    let new_state = DistributionCycleState { last_distributed_at: now };
    if settlement_balance < DUST_THRESHOLD {
        let shares = Shares { payouts: Vec::new(), creator_remainder: 0 };
        return Ok(DistributionResult { shares, new_state });
    }
    let n = grants.len();
    let mut initial: u64 = 0;
    let mut total: u64 = 0;
    let mut locked_amounts: Vec<u64> = Vec::new();
    let mut i: usize = 0;
    while i < n
        invariant
            n == grants.len(),
            i <= n,
            now >= prior_state.last_distributed_at + COOLDOWN,
            settlement_balance >= DUST_THRESHOLD,
            initial == initial_locked(grants@.take(i as int)),
            total == total_locked(grants@.take(i as int)),
            total <= initial,
            locked_amounts.len() == i,
            grants_consistent(grants@.take(i as int)),
            forall|j: int| 0 <= j < i ==> locked_amounts@[j] == (#[trigger] grants@[j]).locked_spec(),
        decreases n - i,
    {
        let g = &grants[i];
        proof {
            lemma_initial_locked_step(grants@, i as int);
        }
        initial = match initial.checked_add(g.net_deposited) {
            Some(sum) => sum,
            None => {
                proof {
                    if grants_consistent(grants@) {
                        lemma_prefix_sums(grants@, i + 1);
                    }
                }
                return Err(ErrorCode::ArithmeticOverflow);
            },
        };
        let locked = match g.locked() {
            Ok(l) => l,
            Err(_) => {
                return Err(ErrorCode::ArithmeticOverflow);
            },
        };
        locked_amounts.push(locked);
        total = total + locked;
        proof {
            let next = grants@.take(i + 1);
            assert forall|j: int| 0 <= j < next.len() implies (#[trigger] next[j]).locked_spec()
                >= 0 by {
                if j < i {
                    assert(grants@.take(i as int)[j] == next[j]);
                }
            }
        }
        i += 1;
    }
    proof {
        assert(grants@.take(n as int) =~= grants@);
    }
    if initial == 0 {
        return Err(ErrorCode::ArithmeticOverflow);
    }
    let locked_bps: u128 = (total as u128) * 10_000 / (initial as u128);
    let share_bps: u128 = if locked_bps < MAX_INVESTOR_SHARE_BPS as u128 {
        locked_bps
    } else {
        MAX_INVESTOR_SHARE_BPS as u128
    };
    assert(settlement_balance * share_bps <= u64::MAX * 1_000) by (nonlinear_arith)
        requires
            0 <= settlement_balance <= u64::MAX,
            0 <= share_bps <= 1_000,
    ;
    let fee: u128 = (settlement_balance as u128) * share_bps / 10_000;
    let split: u128 = if fee < DAILY_CAP as u128 {
        fee
    } else {
        DAILY_CAP as u128
    };
    proof {
        lemma_distributable_bounds(settlement_balance as int, total as int, initial as int);
    }
    let mut payouts: Vec<Payout> = Vec::new();
    let mut paid: u64 = 0;
    let mut k: usize = 0;
    while k < n
        invariant
            n == grants.len(),
            k <= n,
            locked_amounts.len() == n,
            grants_consistent(grants@),
            forall|j: int| 0 <= j < n ==> locked_amounts@[j] == (#[trigger] grants@[j]).locked_spec(),
            total == total_locked(grants@),
            0 <= split <= settlement_balance,
            payouts@ == payouts_spec(grants@.take(k as int), split as int, total as int),
            paid == sum_payouts(payouts@),
            paid <= split,
        decreases n - k,
    {
        let g = &grants[k];
        let locked = locked_amounts[k];
        proof {
            lemma_payouts_step(grants@, k as int, split as int, total as int);
            lemma_prefix_sums(grants@, k + 1);
            lemma_initial_locked_step(grants@, k as int);
            lemma_prefix_sums(grants@, k as int);
        }
        if locked != 0 {
            proof {
                lemma_payout_floor(split as int, locked as int, total as int);
                assert(split * locked <= u64::MAX * u64::MAX) by (nonlinear_arith)
                    requires
                        0 <= split <= u64::MAX,
                        0 <= locked <= u64::MAX,
                ;
            }
            let share: u128 = split * (locked as u128) / (total as u128);
            if share != 0 {
                let payout = Payout { grant_id: g.id, recipient: g.recipient, amount: share as u64 };
                proof {
                    lemma_sum_payouts_push(payouts@, payout);
                    let next = grants@.take(k + 1);
                    assert forall|j: int| 0 <= j < next.len() implies (
                    #[trigger] next[j]).locked_spec() >= 0 by {
                        assert(next[j] == grants@[j]);
                    }
                    lemma_payouts_bounded(next, split as int, total as int);
                }
                payouts.push(payout);
                paid = paid + share as u64;
            }
        }
        k += 1;
    }
    proof {
        assert(grants@.take(n as int) =~= grants@);
    }
    let creator_remainder = settlement_balance - paid;
    Ok(DistributionResult { shares: Shares { payouts, creator_remainder }, new_state })
}

} // verus!
