use star_bounty::distribution::{
    run, DistributionCycleState, COOLDOWN, DAILY_CAP, DUST_THRESHOLD, MAX_INVESTOR_SHARE_BPS,
};
use star_bounty::error::ErrorCode;
use star_bounty::vesting::Grant;

fn grant(id: u64, net_deposited: u64, withdrawn: u64, vested: u64) -> Grant {
    Grant { id, recipient: [id as u8; 32], net_deposited, withdrawn, vested }
}

fn rested() -> DistributionCycleState {
    DistributionCycleState { last_distributed_at: 0 }
}

#[test]
fn constants_have_their_values() {
    assert_eq!(DUST_THRESHOLD, 1_000_000);
    assert_eq!(MAX_INVESTOR_SHARE_BPS, 1_000);
    assert_eq!(DAILY_CAP, 1_000_000_000);
    assert_eq!(COOLDOWN, 86_400);
}

#[test]
fn locked_is_deposit_less_vested_less_withdrawn() {
    assert_eq!(grant(0, 1000, 0, 1000).locked(), Ok(0));
    assert_eq!(grant(1, 1000, 0, 500).locked(), Ok(500));
    assert_eq!(grant(2, 1000, 0, 0).locked(), Ok(1000));
    assert_eq!(grant(3, 1000, 200, 300).locked(), Ok(500));
}

#[test]
fn locked_stays_within_the_deposit() {
    for vested in [0u64, 1, 499, 500] {
        for withdrawn in [0u64, 1, 250, 500] {
            let locked = grant(0, 1000, withdrawn, vested).locked().unwrap();
            assert!(locked <= 1000);
            assert_eq!(locked, 1000 - vested - withdrawn);
        }
    }
}

#[test]
fn locked_refuses_an_inconsistent_grant() {
    assert_eq!(grant(0, 10, 0, 11).locked(), Err(ErrorCode::ArithmeticOverflow));
    assert_eq!(grant(0, 10, 6, 5).locked(), Err(ErrorCode::ArithmeticOverflow));
}

#[test]
fn three_grants_split_the_capped_share() {
    let grants = vec![grant(1, 1000, 0, 1000), grant(2, 1000, 0, 500), grant(3, 1000, 0, 0)];
    let result = run(90_000, 2_000_000, &grants, rested()).unwrap();
    let payouts = &result.shares.payouts;
    assert_eq!(payouts.len(), 2);
    assert_eq!(payouts[0].grant_id, 2);
    assert_eq!(payouts[0].recipient, [2u8; 32]);
    assert_eq!(payouts[0].amount, 66_666);
    assert_eq!(payouts[1].grant_id, 3);
    assert_eq!(payouts[1].recipient, [3u8; 32]);
    assert_eq!(payouts[1].amount, 133_333);
    assert_eq!(result.shares.creator_remainder, 1_800_001);
    assert_eq!(result.new_state.last_distributed_at, 90_000);
}

#[test]
fn dust_pays_nothing_and_still_records_the_cycle() {
    let grants = vec![grant(1, 1000, 0, 0)];
    let result = run(100_000, 900_000, &grants, rested()).unwrap();
    assert!(result.shares.payouts.is_empty());
    assert_eq!(result.shares.creator_remainder, 0);
    assert_eq!(result.new_state.last_distributed_at, 100_000);
}

#[test]
fn dust_is_not_held_to_the_grants() {
    let broken = vec![grant(1, 10, 0, 11)];
    let result = run(100_000, 999_999, &broken, rested()).unwrap();
    assert!(result.shares.payouts.is_empty());
    assert_eq!(result.shares.creator_remainder, 0);
    let none: Vec<Grant> = Vec::new();
    assert!(run(100_000, 0, &none, rested()).is_ok());
}

#[test]
fn cooldown_violation_is_refused() {
    let grants = vec![grant(1, 1000, 0, 0)];
    let prior = DistributionCycleState { last_distributed_at: 1_000_000 };
    let result = run(1_003_600, 2_000_000, &grants, prior);
    assert_eq!(result.err(), Some(ErrorCode::InvalidPrecondition));
    assert_eq!(prior.last_distributed_at, 1_000_000);
}

#[test]
fn cooldown_ends_exactly_after_a_day() {
    let grants = vec![grant(1, 1000, 0, 0)];
    let prior = DistributionCycleState { last_distributed_at: 1_000_000 };
    assert_eq!(
        run(1_086_399, 2_000_000, &grants, prior).err(),
        Some(ErrorCode::InvalidPrecondition)
    );
    assert!(run(1_086_400, 2_000_000, &grants, prior).is_ok());
}

#[test]
fn cooldown_is_compared_without_overflow() {
    let grants = vec![grant(1, 1000, 0, 0)];
    let late = DistributionCycleState { last_distributed_at: i64::MAX };
    assert_eq!(
        run(i64::MAX, 2_000_000, &grants, late).err(),
        Some(ErrorCode::InvalidPrecondition)
    );
    let early = DistributionCycleState { last_distributed_at: i64::MIN };
    assert!(run(i64::MIN + 86_400, 2_000_000, &grants, early).is_ok());
}

#[test]
fn no_grants_is_a_division_by_zero() {
    let none: Vec<Grant> = Vec::new();
    assert_eq!(
        run(100_000, 1_000_000, &none, rested()).err(),
        Some(ErrorCode::ArithmeticOverflow)
    );
    let empty = vec![grant(1, 0, 0, 0)];
    assert_eq!(
        run(100_000, 1_000_000, &empty, rested()).err(),
        Some(ErrorCode::ArithmeticOverflow)
    );
}

#[test]
fn an_inconsistent_grant_aborts_the_cycle() {
    let grants = vec![grant(1, 1000, 0, 0), grant(2, 1000, 600, 500)];
    assert_eq!(
        run(100_000, 2_000_000, &grants, rested()).err(),
        Some(ErrorCode::ArithmeticOverflow)
    );
}

#[test]
fn deposits_beyond_64_bits_abort_the_cycle() {
    let grants = vec![grant(1, u64::MAX, 0, 0), grant(2, 1, 0, 0)];
    assert_eq!(
        run(100_000, 2_000_000, &grants, rested()).err(),
        Some(ErrorCode::ArithmeticOverflow)
    );
    let fits = vec![grant(1, u64::MAX - 1, 0, 0), grant(2, 1, 0, 0)];
    assert!(run(100_000, 2_000_000, &fits, rested()).is_ok());
}

#[test]
fn fully_vested_grants_leave_all_to_the_creator() {
    let grants = vec![grant(1, 1000, 0, 1000), grant(2, 500, 500, 0)];
    let result = run(100_000, 5_000_000, &grants, rested()).unwrap();
    assert!(result.shares.payouts.is_empty());
    assert_eq!(result.shares.creator_remainder, 5_000_000);
}

#[test]
fn the_share_follows_the_locked_fraction_below_the_cap() {
    // 5 of 10_000 locked: 5 basis points of 10_000_000 is 5_000.
    let grants = vec![grant(1, 10_000, 0, 9_995)];
    let result = run(100_000, 10_000_000, &grants, rested()).unwrap();
    assert_eq!(result.shares.payouts.len(), 1);
    assert_eq!(result.shares.payouts[0].amount, 5_000);
    assert_eq!(result.shares.creator_remainder, 9_995_000);
}

#[test]
fn the_share_does_not_grow_as_less_is_locked() {
    let mut last = u64::MAX;
    for vested in [0u64, 9_000, 9_500, 9_900, 9_990, 9_999, 10_000] {
        let grants = vec![grant(1, 10_000, 0, vested)];
        let result = run(100_000, 10_000_000, &grants, rested()).unwrap();
        let paid: u64 = result.shares.payouts.iter().map(|p| p.amount).sum();
        assert!(paid <= last);
        last = paid;
    }
    assert_eq!(last, 0);
}

#[test]
fn the_daily_cap_limits_what_is_split() {
    let grants = vec![grant(1, 1000, 0, 0), grant(2, 3000, 0, 0)];
    let result = run(100_000, 100_000_000_000, &grants, rested()).unwrap();
    assert_eq!(result.shares.payouts[0].amount, 250_000_000);
    assert_eq!(result.shares.payouts[1].amount, 750_000_000);
    assert_eq!(result.shares.creator_remainder, 99_000_000_000);
}

#[test]
fn a_part_that_rounds_to_zero_is_left_out() {
    // 100_000 is split; the first grant's part is 100_000 * 1 / 1_000_001 = 0.
    let grants = vec![grant(7, 1, 0, 0), grant(8, 1_000_000, 0, 0)];
    let result = run(100_000, 1_000_000, &grants, rested()).unwrap();
    assert_eq!(result.shares.payouts.len(), 1);
    assert_eq!(result.shares.payouts[0].grant_id, 8);
    assert_eq!(result.shares.payouts[0].amount, 99_999);
    assert_eq!(result.shares.creator_remainder, 900_001);
}

#[test]
fn payouts_and_remainder_are_the_balance() {
    let sets = [
        vec![grant(1, 1000, 0, 1000), grant(2, 1000, 0, 500), grant(3, 1000, 0, 0)],
        vec![grant(1, 7, 1, 2), grant(2, 11, 0, 3), grant(3, 13, 5, 5), grant(4, 17, 0, 17)],
        vec![grant(1, u64::MAX / 2, 0, 0), grant(2, u64::MAX / 2, 0, 1)],
    ];
    for grants in sets.iter() {
        for balance in [1_000_000u64, 1_000_003, 77_777_777, 123_456_789_012, u64::MAX] {
            let result = run(100_000, balance, grants, rested()).unwrap();
            let paid: u128 = result.shares.payouts.iter().map(|p| p.amount as u128).sum();
            assert_eq!(paid + result.shares.creator_remainder as u128, balance as u128);
            assert!(paid <= DAILY_CAP as u128);
            assert!(paid <= balance as u128 / 10);
        }
    }
}
