use star_bounty::context::claim_fees::ClaimFees;
use star_bounty::context::create_stream::{CreateStream, STREAM_AMOUNT, STREAM_PERIOD};
use star_bounty::context::deposit::{Deposit, PoolState, COLLECT_FEE_MODE_ONLY_B};
use star_bounty::context::initialize::{InitializePool, COMMITMENT_IN_BPS, POOL_AMOUNT};
use star_bounty::error::ErrorCode;
use star_bounty::range::{MAX_SQRT_PRICE, MIN_SQRT_PRICE};
use star_bounty::state::{Creator, InvestorFeePositionOwnerPda};
use star_bounty::vesting::Grant;

fn initialize(payer_token_a_amount: u64) -> InitializePool {
    InitializePool {
        creator: Creator { streams: 9, bump: [0] },
        payer_token_a_amount,
        payer_token_b_amount: POOL_AMOUNT,
    }
}

fn owner() -> InvestorFeePositionOwnerPda {
    InvestorFeePositionOwnerPda { associated_mint: [3; 32], last_claimed_at: 0, bump: [254] }
}

#[test]
fn pool_constants_have_their_values() {
    assert_eq!(COMMITMENT_IN_BPS, 1_000);
    assert_eq!(POOL_AMOUNT, 1_000_000_000_000);
    assert_eq!(MIN_SQRT_PRICE, 4_295_048_016);
    assert_eq!(MAX_SQRT_PRICE, 79_226_673_521_066_979_257_578_248_091);
}

#[test]
fn populate_creator_starts_the_record() {
    let mut ctx = initialize(5);
    assert_eq!(ctx.populate_creator([7]), Ok(()));
    assert_eq!(ctx.creator.streams, 0);
    assert_eq!(ctx.creator.bump, [7]);
    assert_eq!(ctx.payer_token_a_amount, 5);
}

#[test]
fn create_pool_commits_a_tenth() {
    let pool = initialize(10_000_000).create_pool().unwrap();
    assert_eq!(pool.sqrt_min_price, 15_434_390_766_472_781);
    assert_eq!(pool.sqrt_max_price, 21_032_977_592_843_630);
    assert_eq!(pool.sqrt_price, 21_032_977_592_836_351);
    assert_eq!(pool.liquidity, 60_775_676_112_228_207_335_168_474_075_302_926);
}

#[test]
fn create_pool_rounds_the_commitment_down() {
    let exact = initialize(10).create_pool().unwrap();
    let rounded = initialize(19).create_pool().unwrap();
    assert_eq!(exact, rounded);
    assert_eq!(exact.sqrt_min_price, 15_434_390_766_472);
    assert_eq!(exact.sqrt_max_price, 21_032_977_592_843);
    assert_eq!(exact.sqrt_price, 21_032_977_592_842);
    assert_eq!(exact.liquidity, 442_386_146_421_014_685_707_229_806);
}

#[test]
fn create_pool_of_equal_amounts() {
    let pool = initialize(10_000_000_000_000).create_pool().unwrap();
    assert_eq!(pool.sqrt_min_price, 15_434_390_766_472_781_837);
    assert_eq!(pool.sqrt_max_price, 21_032_977_592_843_630_752);
    assert_eq!(pool.sqrt_price, 18_078_433_188_022_726_189);
    assert_eq!(pool.liquidity, 128_697_771_316_945_845_158_254_241_374_269);
}

#[test]
fn create_pool_of_the_largest_commitment() {
    let pool = initialize(18_446_744_073_709_551).create_pool().unwrap();
    assert_eq!(pool.sqrt_min_price, 662_902_035_756_849_683_608);
    assert_eq!(pool.sqrt_max_price, 903_359_508_987_641_937_672);
    assert_eq!(pool.sqrt_price, 662_902_109_827_787_992_652);
    assert_eq!(pool.liquidity, 4_594_006_430_716_285_737_297_395_367_558_715_542);
}

#[test]
fn create_pool_keeps_the_price_inside_the_range() {
    for payer in [10u64, 11, 1_000, 123_456_789, 1_000_000_000_000, 9_999_999_999_999_999] {
        let pool = initialize(payer).create_pool().unwrap();
        assert!(MIN_SQRT_PRICE <= pool.sqrt_min_price);
        assert!(pool.sqrt_min_price < pool.sqrt_price);
        assert!(pool.sqrt_price < pool.sqrt_max_price);
        assert!(pool.sqrt_max_price <= MAX_SQRT_PRICE);
        assert!(pool.liquidity > 0);
    }
}

#[test]
fn create_pool_fails_where_the_commitment_overflows() {
    assert_eq!(
        initialize(18_446_744_073_709_552).create_pool(),
        Err(ErrorCode::ArithmeticOverflow)
    );
    assert_eq!(initialize(u64::MAX).create_pool(), Err(ErrorCode::ArithmeticOverflow));
}

#[test]
fn create_pool_refuses_an_empty_commitment() {
    assert_eq!(initialize(0).create_pool(), Err(ErrorCode::InvalidPrecondition));
    assert_eq!(initialize(9).create_pool(), Err(ErrorCode::InvalidPrecondition));
}

#[test]
fn the_contexts_share_one_calculation() {
    let by_pool = InitializePool::calculate_liquidity(1000, 1000, 1 << 64, 1 << 63, 1 << 65);
    let by_deposit = Deposit::calculate_liquidity(1000, 1000, 1 << 64, 1 << 63, 1 << 65);
    assert_eq!(by_pool, Ok(36_893_488_147_419_103_232_000));
    assert_eq!(by_deposit, by_pool);
    assert_eq!(InitializePool::calculate_init_price(1, 1, 1, 2), Ok(1));
    assert_eq!(
        InitializePool::calculate_init_price(0, 1, 1, 2),
        Err(ErrorCode::InvalidPrecondition)
    );
}

fn deposit(a: u64, b: u64) -> Deposit {
    Deposit {
        investor_fee_pos_owner: owner(),
        mint_b: [8; 32],
        payer_token_a_amount: a,
        payer_token_b_amount: b,
    }
}

#[test]
fn initialize_owner_starts_the_record() {
    let mut ctx = deposit(1, 2);
    ctx.investor_fee_pos_owner.last_claimed_at = 55;
    assert_eq!(ctx.initialize_investor_fee_pos_owner([9]), Ok(()));
    assert_eq!(ctx.investor_fee_pos_owner.associated_mint, [8; 32]);
    assert_eq!(ctx.investor_fee_pos_owner.last_claimed_at, 0);
    assert_eq!(ctx.investor_fee_pos_owner.bump, [9]);
    assert_eq!(ctx.payer_token_a_amount, 1);
    assert_eq!(ctx.payer_token_b_amount, 2);
}

#[test]
fn deposit_adds_the_liquidity_of_both_balances() {
    let pool = PoolState {
        collect_fee_mode: COLLECT_FEE_MODE_ONLY_B,
        sqrt_price: 1 << 64,
        sqrt_min_price: 1 << 63,
        sqrt_max_price: 1 << 65,
    };
    let params = deposit(1000, 1000).deposit(&pool).unwrap();
    assert_eq!(params.liquidity_delta, 36_893_488_147_419_103_232_000);
    assert_eq!(params.token_a_amount_threshold, 1000);
    assert_eq!(params.token_b_amount_threshold, 1000);
}

#[test]
fn deposit_refuses_another_fee_mode() {
    let pool = PoolState {
        collect_fee_mode: 0,
        sqrt_price: 1 << 64,
        sqrt_min_price: 1 << 63,
        sqrt_max_price: 1 << 65,
    };
    assert_eq!(deposit(1000, 1000).deposit(&pool), Err(ErrorCode::InvalidCollectFeeMode));
    let odd = PoolState { collect_fee_mode: 2, ..pool };
    assert_eq!(deposit(1000, 1000).deposit(&odd), Err(ErrorCode::InvalidCollectFeeMode));
}

#[test]
fn deposit_fails_on_a_price_at_a_bound() {
    let pool = PoolState {
        collect_fee_mode: COLLECT_FEE_MODE_ONLY_B,
        sqrt_price: 1 << 65,
        sqrt_min_price: 1 << 63,
        sqrt_max_price: 1 << 65,
    };
    assert_eq!(deposit(1000, 1000).deposit(&pool), Err(ErrorCode::ArithmeticOverflow));
}

fn grant(id: u64, net_deposited: u64, withdrawn: u64, vested: u64) -> Grant {
    Grant { id, recipient: [id as u8; 32], net_deposited, withdrawn, vested }
}

#[test]
fn distribute_records_the_cycle_and_empties_the_account() {
    let mut ctx = ClaimFees { investor_fee_pos_owner: owner(), token_b_amount: 2_000_000 };
    let grants = vec![grant(1, 1000, 0, 1000), grant(2, 1000, 0, 500), grant(3, 1000, 0, 0)];
    let shares = ctx.distribute(86_400, &grants).unwrap();
    assert_eq!(shares.payouts.len(), 2);
    assert_eq!(shares.payouts[0].amount, 66_666);
    assert_eq!(shares.payouts[1].amount, 133_333);
    assert_eq!(shares.creator_remainder, 1_800_001);
    assert_eq!(ctx.investor_fee_pos_owner.last_claimed_at, 86_400);
    assert_eq!(ctx.investor_fee_pos_owner.associated_mint, [3; 32]);
    assert_eq!(ctx.investor_fee_pos_owner.bump, [254]);
    assert_eq!(ctx.token_b_amount, 0);
}

#[test]
fn distribute_leaves_dust_in_the_account() {
    let mut ctx = ClaimFees { investor_fee_pos_owner: owner(), token_b_amount: 900_000 };
    let grants = vec![grant(1, 1000, 0, 0)];
    let shares = ctx.distribute(86_400, &grants).unwrap();
    assert!(shares.payouts.is_empty());
    assert_eq!(shares.creator_remainder, 0);
    assert_eq!(ctx.investor_fee_pos_owner.last_claimed_at, 86_400);
    assert_eq!(ctx.token_b_amount, 900_000);
}

#[test]
fn distribute_changes_nothing_on_a_refusal() {
    let mut ctx = ClaimFees { investor_fee_pos_owner: owner(), token_b_amount: 2_000_000 };
    ctx.investor_fee_pos_owner.last_claimed_at = 1_000_000;
    let grants = vec![grant(1, 1000, 0, 0)];
    assert_eq!(ctx.distribute(1_003_600, &grants).err(), Some(ErrorCode::InvalidPrecondition));
    assert_eq!(ctx.investor_fee_pos_owner.last_claimed_at, 1_000_000);
    assert_eq!(ctx.token_b_amount, 2_000_000);
    let broken = vec![grant(1, 10, 0, 11)];
    assert_eq!(ctx.distribute(2_000_000, &broken).err(), Some(ErrorCode::ArithmeticOverflow));
    assert_eq!(ctx.investor_fee_pos_owner.last_claimed_at, 1_000_000);
    assert_eq!(ctx.token_b_amount, 2_000_000);
}

#[test]
fn distribute_twice_needs_a_day_between() {
    let mut ctx = ClaimFees { investor_fee_pos_owner: owner(), token_b_amount: 3_000_000 };
    let grants = vec![grant(1, 1000, 0, 0)];
    assert!(ctx.distribute(500_000, &grants).is_ok());
    ctx.token_b_amount = 3_000_000;
    assert_eq!(ctx.distribute(586_399, &grants).err(), Some(ErrorCode::InvalidPrecondition));
    assert!(ctx.distribute(586_400, &grants).is_ok());
    assert_eq!(ctx.investor_fee_pos_owner.last_claimed_at, 586_400);
}

#[test]
fn create_stream_counts_and_fixes_the_terms() {
    let mut ctx = CreateStream { creator: Creator { streams: 0, bump: [4] } };
    let terms = ctx.create_stream(1_700_000_000).unwrap();
    assert_eq!(ctx.creator.streams, 1);
    assert_eq!(ctx.creator.bump, [4]);
    assert_eq!(terms.start_time, 1_700_000_000);
    assert_eq!(terms.net_amount_deposited, STREAM_AMOUNT);
    assert_eq!(terms.amount_per_period, 1_000_000);
    assert_eq!(terms.period, STREAM_PERIOD);
    assert_eq!(terms.period, 60 * 60 * 24 * 30);
    assert_eq!(terms.withdraw_frequency, 60 * 60 * 24 * 30);
    assert_eq!(terms.cliff, 0);
    assert_eq!(terms.cliff_amount, 0);
    assert!(terms.cancelable_by_sender);
    assert!(!terms.cancelable_by_recipient);
    assert!(terms.automatic_withdrawal);
    assert!(terms.transferable_by_sender);
    assert!(!terms.transferable_by_recipient);
    assert!(terms.can_topup);
    let again = ctx.create_stream(5).unwrap();
    assert_eq!(ctx.creator.streams, 2);
    assert_eq!(again.start_time, 5);
}

#[test]
fn create_stream_fills_the_record() {
    let mut ctx = CreateStream { creator: Creator { streams: 254, bump: [4] } };
    assert!(ctx.create_stream(1).is_ok());
    assert_eq!(ctx.creator.streams, 255);
}
