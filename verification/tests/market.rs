use smart_contract::error::BetError;
use smart_contract::payout::compute_payout;
use smart_contract::processor::{initialize_bet, place_bet, resolve_bet, withdraw_expired};
use smart_contract::state::{BetOutcome, BetState, BetStatus, UserBet};

const NOW: i64 = 1_700_000_000;

fn active_market(expires_at: i64, min_bet: u64, max_bet: u64) -> BetState {
    BetState {
        creator: 1,
        escrow_account: 2,
        total_pool: 0,
        yes_pool: 0,
        no_pool: 0,
        expires_at,
        status: BetStatus::Active,
        outcome: None,
        min_bet_amount: min_bet,
        max_bet_amount: max_bet,
        is_initialized: true,
    }
}

#[test]
fn test_initialize_bet() {
    let creator: u64 = 10;
    let escrow_account: u64 = 11;
    let expires_at = NOW + 86400; // 1 day in the future
    let min_bet = 100;
    let max_bet = 1000;

    let bet_state = initialize_bet(creator, escrow_account, NOW, expires_at, min_bet, max_bet)
        .expect("creation with valid parameters succeeds");

    assert_eq!(bet_state.creator, creator);
    assert_eq!(bet_state.expires_at, expires_at);
    assert_eq!(bet_state.min_bet_amount, min_bet);
    assert_eq!(bet_state.max_bet_amount, max_bet);
    assert_eq!(bet_state.escrow_account, escrow_account);
    assert_eq!(bet_state.status, BetStatus::Active);
    assert_eq!(bet_state.outcome, None);
    assert_eq!(bet_state.total_pool, 0);
    assert_eq!(bet_state.yes_pool, 0);
    assert_eq!(bet_state.no_pool, 0);
    assert!(bet_state.is_initialized);
}

#[test]
fn test_place_bet() {
    let expires_at = NOW + 86400; // 1 day in the future
    let mut bet_state = active_market(expires_at, 100, 1000);
    let bettor: u64 = 20;
    let bet_account: u64 = 3;
    let bet_amount = 500;

    let user_bet = place_bet(
        &mut bet_state,
        bettor,
        bet_account,
        bet_amount,
        BetOutcome::Yes,
        NOW,
        false,
    )
    .expect("a stake within bounds on an active market is admitted");

    // The yes pool and the total pool grow by the stake.
    assert_eq!(bet_state.total_pool, bet_amount);
    assert_eq!(bet_state.yes_pool, bet_amount);
    assert_eq!(bet_state.no_pool, 0);
    assert_eq!(user_bet.user, bettor);
    assert_eq!(user_bet.bet_account, bet_account);
    assert_eq!(user_bet.amount, bet_amount);
    assert_eq!(user_bet.position, BetOutcome::Yes);
    assert!(!user_bet.is_claimed);
}

#[test]
fn test_resolve_bet() {
    let creator: u64 = 1;
    let expires_at = NOW + 86400;
    let mut bet_state = BetState {
        total_pool: 5000,
        yes_pool: 3000,
        no_pool: 2000,
        ..active_market(expires_at, 100, 1000)
    };

    resolve_bet(&mut bet_state, creator, BetOutcome::Yes)
        .expect("the creator resolves an active market");

    assert_eq!(bet_state.status, BetStatus::Resolved);
    assert_eq!(bet_state.outcome, Some(BetOutcome::Yes));
    assert_eq!(bet_state.total_pool, 5000);
    assert_eq!(bet_state.yes_pool, 3000);
    assert_eq!(bet_state.no_pool, 2000);
}

#[test]
fn test_withdraw_expired() {
    let user: u64 = 30;
    let expired_time = NOW - 1000; // in the past
    let bet_state = BetState {
        total_pool: 5000,
        yes_pool: 3000,
        no_pool: 2000,
        ..active_market(expired_time, 100, 1000)
    };
    let mut user_bet = UserBet {
        user,
        bet_account: 3,
        amount: 500,
        position: BetOutcome::Yes,
        is_claimed: false,
    };

    let paid = withdraw_expired(&bet_state, &mut user_bet, user, NOW)
        .expect("an expired unresolved market settles");

    // The user gets the original stake back and the record is claimed.
    assert_eq!(paid, 500);
    assert!(user_bet.is_claimed);
}

#[test]
fn test_error_handling() {
    // A stake offered to an already expired market is refused.
    {
        let expires_at = NOW - 1; // already expired
        let mut bet_state = active_market(expires_at, 100, 1000);
        let r = place_bet(&mut bet_state, 20, 3, 500, BetOutcome::Yes, NOW, false);
        assert_eq!(r, Err(BetError::MarketExpired));
        assert_eq!(bet_state.total_pool, 0);
    }

    // A stake below the minimum is refused.
    {
        let expires_at = NOW + 86400;
        let mut bet_state = active_market(expires_at, 100, 1000);
        let r = place_bet(&mut bet_state, 20, 3, 50, BetOutcome::Yes, NOW, false);
        assert_eq!(r, Err(BetError::InvalidAmount));
        assert_eq!(bet_state.total_pool, 0);
    }
}

#[test]
fn test_initialize_rejects_bad_parameters() {
    // Expiry not strictly in the future.
    assert_eq!(
        initialize_bet(1, 2, NOW, NOW, 100, 1000),
        Err(BetError::InvalidParameters)
    );
    assert_eq!(
        initialize_bet(1, 2, NOW, NOW - 5, 100, 1000),
        Err(BetError::InvalidParameters)
    );
    // A zero minimum bet.
    assert_eq!(
        initialize_bet(1, 2, NOW, NOW + 10, 0, 1000),
        Err(BetError::InvalidParameters)
    );
    // A maximum below the minimum.
    assert_eq!(
        initialize_bet(1, 2, NOW, NOW + 10, 100, 99),
        Err(BetError::InvalidParameters)
    );
}

#[test]
fn test_pool_consistency_after_each_stake() {
    let mut market = active_market(NOW + 86400, 100, 1000);
    let stakes = [
        (100, BetOutcome::Yes),
        (1000, BetOutcome::No),
        (250, BetOutcome::Yes),
        (100, BetOutcome::No),
    ];
    for (i, (amount, position)) in stakes.iter().enumerate() {
        place_bet(
            &mut market,
            40 + i as u64,
            3,
            *amount,
            *position,
            NOW,
            false,
        )
        .expect("each stake is within bounds on an active market");
        assert_eq!(market.total_pool, market.yes_pool + market.no_pool);
    }
    assert_eq!(market.total_pool, 1450);
    assert_eq!(market.yes_pool, 350);
    assert_eq!(market.no_pool, 1100);
}

#[test]
fn test_bounds_edges() {
    let mut market = active_market(NOW + 86400, 100, 1000);

    // Exactly the minimum and exactly the maximum are admitted.
    place_bet(&mut market, 20, 3, 100, BetOutcome::Yes, NOW, false)
        .expect("the minimum stake is admitted");
    place_bet(&mut market, 21, 3, 1000, BetOutcome::No, NOW, false)
        .expect("the maximum stake is admitted");

    // One below and one above are refused, leaving the pools unchanged.
    let before = market.clone();
    assert_eq!(
        place_bet(&mut market, 22, 3, 99, BetOutcome::Yes, NOW, false),
        Err(BetError::InvalidAmount)
    );
    assert_eq!(
        place_bet(&mut market, 23, 3, 1001, BetOutcome::No, NOW, false),
        Err(BetError::InvalidAmount)
    );
    assert_eq!(market, before);
}

#[test]
fn test_duplicate_participation_refused() {
    let mut market = active_market(NOW + 86400, 100, 1000);
    place_bet(&mut market, 20, 3, 500, BetOutcome::Yes, NOW, false)
        .expect("the first stake is admitted");
    let r = place_bet(&mut market, 20, 3, 500, BetOutcome::Yes, NOW, true);
    assert_eq!(r, Err(BetError::DuplicateParticipation));
    assert_eq!(market.total_pool, 500);
}

#[test]
fn test_stake_on_resolved_market_refused() {
    let mut market = active_market(NOW + 86400, 100, 1000);
    resolve_bet(&mut market, 1, BetOutcome::Yes).expect("the creator resolves");
    let r = place_bet(&mut market, 20, 3, 500, BetOutcome::Yes, NOW, false);
    assert_eq!(r, Err(BetError::InvalidState));
    assert_eq!(market.total_pool, 0);
}

#[test]
fn test_resolve_unauthorized() {
    let mut market = active_market(NOW + 86400, 100, 1000);
    let not_creator: u64 = 99;
    let r = resolve_bet(&mut market, not_creator, BetOutcome::Yes);
    assert_eq!(r, Err(BetError::Unauthorized));
    assert_eq!(market.status, BetStatus::Active);
    assert_eq!(market.outcome, None);
}

#[test]
fn test_single_resolution() {
    let mut market = active_market(NOW + 86400, 100, 1000);
    resolve_bet(&mut market, 1, BetOutcome::Yes).expect("the first resolve succeeds");
    let second = resolve_bet(&mut market, 1, BetOutcome::No);
    assert_eq!(second, Err(BetError::InvalidState));
    assert_eq!(market.status, BetStatus::Resolved);
    assert_eq!(market.outcome, Some(BetOutcome::Yes));
}

#[test]
fn test_no_double_pay() {
    let mut market = active_market(NOW + 86400, 100, 1000);
    place_bet(&mut market, 20, 3, 300, BetOutcome::Yes, NOW, false)
        .expect("the stake is admitted");
    let mut user_bet = UserBet {
        user: 20,
        bet_account: 3,
        amount: 300,
        position: BetOutcome::Yes,
        is_claimed: false,
    };
    resolve_bet(&mut market, 1, BetOutcome::Yes).expect("the creator resolves");

    let first = withdraw_expired(&market, &mut user_bet, 20, NOW);
    assert_eq!(first, Ok(300));
    assert!(user_bet.is_claimed);

    let second = withdraw_expired(&market, &mut user_bet, 20, NOW + 10);
    assert_eq!(second, Err(BetError::AlreadyClaimed));
    assert!(user_bet.is_claimed);
}

#[test]
fn test_settle_active_unexpired_refused() {
    let market = BetState {
        total_pool: 300,
        yes_pool: 300,
        ..active_market(NOW + 86400, 100, 1000)
    };
    let mut user_bet = UserBet {
        user: 20,
        bet_account: 3,
        amount: 300,
        position: BetOutcome::Yes,
        is_claimed: false,
    };
    let r = withdraw_expired(&market, &mut user_bet, 20, NOW);
    assert_eq!(r, Err(BetError::NotSettleable));
    assert!(!user_bet.is_claimed);
}

#[test]
fn test_settle_unauthorized() {
    let market = BetState {
        status: BetStatus::Resolved,
        outcome: Some(BetOutcome::Yes),
        total_pool: 300,
        yes_pool: 300,
        ..active_market(NOW + 86400, 100, 1000)
    };
    let mut user_bet = UserBet {
        user: 20,
        bet_account: 3,
        amount: 300,
        position: BetOutcome::Yes,
        is_claimed: false,
    };
    let somebody_else: u64 = 77;
    let r = withdraw_expired(&market, &mut user_bet, somebody_else, NOW);
    assert_eq!(r, Err(BetError::Unauthorized));
    assert!(!user_bet.is_claimed);
}

#[test]
fn test_scenario_proportional_payout() {
    // min_bet=100, max_bet=1000; 300 on Yes and 700 on No; resolve Yes.
    let mut market = active_market(NOW + 86400, 100, 1000);
    place_bet(&mut market, 20, 3, 300, BetOutcome::Yes, NOW, false)
        .expect("the yes stake is admitted");
    place_bet(&mut market, 21, 3, 700, BetOutcome::No, NOW, false)
        .expect("the no stake is admitted");
    assert_eq!(market.total_pool, 1000);
    assert_eq!(market.yes_pool, 300);
    assert_eq!(market.no_pool, 700);

    resolve_bet(&mut market, 1, BetOutcome::Yes).expect("the creator resolves");

    let mut yes_bet = UserBet {
        user: 20,
        bet_account: 3,
        amount: 300,
        position: BetOutcome::Yes,
        is_claimed: false,
    };
    let mut no_bet = UserBet {
        user: 21,
        bet_account: 3,
        amount: 700,
        position: BetOutcome::No,
        is_claimed: false,
    };

    // The sole winner takes the whole pool: floor(1000 * 300 / 300) = 1000.
    assert_eq!(withdraw_expired(&market, &mut yes_bet, 20, NOW), Ok(1000));
    assert!(yes_bet.is_claimed);

    // The loser gets nothing, and is still marked claimed.
    assert_eq!(withdraw_expired(&market, &mut no_bet, 21, NOW), Ok(0));
    assert!(no_bet.is_claimed);
}

#[test]
fn test_scenario_degenerate_resolution() {
    // Everyone bet Yes; the creator resolves to No, whose pool is empty:
    // every participant is refunded their own stake, not paid zero.
    let mut market = active_market(NOW + 86400, 100, 1000);
    place_bet(&mut market, 20, 3, 100, BetOutcome::Yes, NOW, false)
        .expect("the first yes stake is admitted");
    place_bet(&mut market, 21, 3, 200, BetOutcome::Yes, NOW, false)
        .expect("the second yes stake is admitted");
    assert_eq!(market.yes_pool, 300);
    assert_eq!(market.no_pool, 0);

    resolve_bet(&mut market, 1, BetOutcome::No).expect("the creator resolves");

    let mut first = UserBet {
        user: 20,
        bet_account: 3,
        amount: 100,
        position: BetOutcome::Yes,
        is_claimed: false,
    };
    let mut second = UserBet {
        user: 21,
        bet_account: 3,
        amount: 200,
        position: BetOutcome::Yes,
        is_claimed: false,
    };
    assert_eq!(withdraw_expired(&market, &mut first, 20, NOW), Ok(100));
    assert_eq!(withdraw_expired(&market, &mut second, 21, NOW), Ok(200));
}

#[test]
fn test_payout_floor_division_conserves_pool() {
    // Winning stakes of 100 and 200 against a pool of 1000: the floored
    // shares 333 and 666 sum to 999, under-paying the pool by dust.
    let market = BetState {
        status: BetStatus::Resolved,
        outcome: Some(BetOutcome::Yes),
        total_pool: 1000,
        yes_pool: 300,
        no_pool: 700,
        ..active_market(NOW + 86400, 100, 1000)
    };
    let first = UserBet {
        user: 20,
        bet_account: 3,
        amount: 100,
        position: BetOutcome::Yes,
        is_claimed: false,
    };
    let second = UserBet {
        user: 21,
        bet_account: 3,
        amount: 200,
        position: BetOutcome::Yes,
        is_claimed: false,
    };
    let a = compute_payout(&market, &first);
    let b = compute_payout(&market, &second);
    assert_eq!(a, 333);
    assert_eq!(b, 666);
    assert!(a + b <= market.total_pool);
}

#[test]
fn test_payout_refund_when_never_resolved() {
    let market = BetState {
        total_pool: 5000,
        yes_pool: 3000,
        no_pool: 2000,
        ..active_market(NOW - 1000, 100, 1000)
    };
    let bet = UserBet {
        user: 20,
        bet_account: 3,
        amount: 450,
        position: BetOutcome::No,
        is_claimed: false,
    };
    assert_eq!(compute_payout(&market, &bet), 450);
}

#[test]
fn test_calculate_space() {
    assert_eq!(BetState::calculate_space(), 148);
    assert_eq!(UserBet::calculate_space(), 90);
}

#[test]
fn test_side_pool_and_is_initialized() {
    let market = BetState {
        total_pool: 5000,
        yes_pool: 3000,
        no_pool: 2000,
        ..active_market(NOW + 86400, 100, 1000)
    };
    assert_eq!(market.side_pool(BetOutcome::Yes), 3000);
    assert_eq!(market.side_pool(BetOutcome::No), 2000);
    assert!(market.is_initialized());
}
