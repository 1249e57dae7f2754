//! The lifecycle controller: the four public operations of the market core
//! as pure state transitions. Each operation is specified by an open spec
//! function giving the next state and the result for every input, and the
//! executable function is proved to return exactly that. The host platform
//! hands in the current time, the caller's (already signature-checked)
//! identity and the stored records, and persists or discards the outcome as
//! one atomic unit.

use vstd::prelude::*;
use crate::error::BetError;
use crate::payout::{compute_payout, spec_payout};
use crate::state::{AccountId, BetOutcome, BetState, BetStatus, UserBet};

verus! {

/// The market record a successful creation persists.
pub open spec fn fresh_market(
    creator: AccountId,
    escrow_account: AccountId,
    expires_at: i64,
    min_bet: u64,
    max_bet: u64,
) -> BetState {
    BetState {
        creator,
        escrow_account,
        total_pool: 0,
        yes_pool: 0,
        no_pool: 0,
        expires_at,
        status: BetStatus::Active,
        outcome: None,
        min_bet_amount: min_bet,
        max_bet_amount: max_bet,
        is_initialized: true,
    }
}

/// What market creation returns: the fresh `Active` market with empty
/// pools, or `InvalidParameters` when the expiry is not strictly in the
/// future or the bet bounds are degenerate.
pub open spec fn initialize_bet_spec(
    creator: AccountId,
    escrow_account: AccountId,
    now: i64,
    expires_at: i64,
    min_bet: u64,
    max_bet: u64,
) -> Result<BetState, BetError> {
    if expires_at <= now || min_bet == 0 || max_bet < min_bet {
        Err(BetError::InvalidParameters)
    } else {
        Ok(fresh_market(creator, escrow_account, expires_at, min_bet, max_bet))
    }
}

/// Open a new market. `now` is the trusted clock reading of the enclosing
/// transaction; `escrow_account` is the handle of the custody unit the host
/// allocated for this market.
pub fn initialize_bet(
    creator: AccountId,
    escrow_account: AccountId,
    now: i64,
    expires_at: i64,
    min_bet: u64,
    max_bet: u64,
) -> (r: Result<BetState, BetError>)
    ensures
        r == initialize_bet_spec(creator, escrow_account, now, expires_at, min_bet, max_bet),
        r is Ok <==> now < expires_at && 0 < min_bet <= max_bet,
        r matches Ok(market) ==> market.well_formed() && market.status is Active
            && market.total_pool == 0,
{
    if expires_at <= now {
        return Err(BetError::InvalidParameters);
    }
    if min_bet == 0 || max_bet < min_bet {
        return Err(BetError::InvalidParameters);
    }
    Ok(
        BetState {
            creator,
            escrow_account,
            total_pool: 0,
            yes_pool: 0,
            no_pool: 0,
            expires_at,
            status: BetStatus::Active,
            outcome: None,
            min_bet_amount: min_bet,
            max_bet_amount: max_bet,
            is_initialized: true,
        },
    )
}

/// Whether one more stake of `amount` still fits the market's pool counter.
pub open spec fn stake_fits(market: BetState, amount: u64) -> bool {
    market.total_pool + amount <= u64::MAX
}

/// The market after one admitted stake: the total pool and the chosen
/// side's pool grow by the stake; everything else is untouched.
pub open spec fn stake_applied(market: BetState, amount: u64, position: BetOutcome) -> BetState {
    match position {
        BetOutcome::Yes => (BetState {
            total_pool: (market.total_pool + amount) as u64,
            yes_pool: (market.yes_pool + amount) as u64,
            ..market
        }),
        BetOutcome::No => (BetState {
            total_pool: (market.total_pool + amount) as u64,
            no_pool: (market.no_pool + amount) as u64,
            ..market
        }),
    }
}

/// What admitting a stake does, for every input. The checks come in order,
/// each with its own failure: the market must be `Active`, unexpired at
/// `now`, the stake within bounds, and the user without an earlier
/// participation; every failure leaves the market untouched. On success the
/// pools grow and the fresh unclaimed participation record is returned.
pub open spec fn place_bet_spec(
    market: BetState,
    user: AccountId,
    bet_account: AccountId,
    amount: u64,
    position: BetOutcome,
    now: i64,
    has_participation: bool,
) -> (BetState, Result<UserBet, BetError>) {
    if !(market.status is Active) {
        (market, Err(BetError::InvalidState))
    } else if now >= market.expires_at {
        (market, Err(BetError::MarketExpired))
    } else if amount < market.min_bet_amount || amount > market.max_bet_amount {
        (market, Err(BetError::InvalidAmount))
    } else if has_participation {
        (market, Err(BetError::DuplicateParticipation))
    } else {
        (
            stake_applied(market, amount, position),
            Ok(UserBet { user, bet_account, amount, position, is_claimed: false }),
        )
    }
}

/// Admit a stake of `amount` on `position`. `has_participation` is the
/// host's storage fact that a participation record for (user, market)
/// already exists. The escrow credit of `amount` must be committed by the
/// caller in the same atomic unit as the returned record and pool update.
pub fn place_bet(
    market: &mut BetState,
    user: AccountId,
    bet_account: AccountId,
    amount: u64,
    position: BetOutcome,
    now: i64,
    has_participation: bool,
) -> (r: Result<UserBet, BetError>)
    requires
        old(market).pools_consistent(),
        stake_fits(*old(market), amount),
    ensures
        (*final(market), r) == place_bet_spec(
            *old(market),
            user,
            bet_account,
            amount,
            position,
            now,
            has_participation,
        ),
        final(market).pools_consistent(),
        r is Err ==> *final(market) == *old(market),
        r matches Ok(bet) ==> final(market).total_pool == old(market).total_pool + amount
            && bet.consistent_with(*final(market)),
        old(market).well_formed() ==> final(market).well_formed(),
{
    if !(market.status == BetStatus::Active) {
        return Err(BetError::InvalidState);
    }
    if now >= market.expires_at {
        return Err(BetError::MarketExpired);
    }
    if amount < market.min_bet_amount || amount > market.max_bet_amount {
        return Err(BetError::InvalidAmount);
    }
    if has_participation {
        return Err(BetError::DuplicateParticipation);
    }
    market.total_pool = market.total_pool + amount;
    match position {
        BetOutcome::Yes => {
            market.yes_pool = market.yes_pool + amount;
        },
        BetOutcome::No => {
            market.no_pool = market.no_pool + amount;
        },
    }
    Ok(UserBet { user, bet_account, amount, position, is_claimed: false })
}

/// What resolving does, for every input: `Unauthorized` for anyone but the
/// creator, `InvalidState` once the market has left `Active`, and otherwise
/// the irreversible transition to `Resolved` with the outcome fixed.
pub open spec fn resolve_bet_spec(
    market: BetState,
    caller: AccountId,
    outcome: BetOutcome,
) -> (BetState, Result<(), BetError>) {
    if caller != market.creator {
        (market, Err(BetError::Unauthorized))
    } else if !(market.status is Active) {
        (market, Err(BetError::InvalidState))
    } else {
        ((BetState { status: BetStatus::Resolved, outcome: Some(outcome), ..market }), Ok(()))
    }
}

/// Declare the market's outcome. Only the creator may do this, only while
/// the market is `Active`, and the transition is never undone.
pub fn resolve_bet(
    market: &mut BetState,
    caller: AccountId,
    outcome: BetOutcome,
) -> (r: Result<(), BetError>)
    ensures
        (*final(market), r) == resolve_bet_spec(*old(market), caller, outcome),
        r is Err ==> *final(market) == *old(market),
        r is Ok ==> final(market).status is Resolved && final(market).outcome == Some(outcome),
        final(market).total_pool == old(market).total_pool,
        old(market).well_formed() ==> final(market).well_formed(),
{
    if caller != market.creator {
        return Err(BetError::Unauthorized);
    }
    if !(market.status == BetStatus::Active) {
        return Err(BetError::InvalidState);
    }
    market.status = BetStatus::Resolved;
    market.outcome = Some(outcome);
    Ok(())
}

/// A settlement result with the paid amount as a mathematical integer, for
/// stating the executable result against the spec transition.
pub open spec fn as_int_result(r: Result<u64, BetError>) -> Result<int, BetError> {
    match r {
        Ok(amount) => Ok(amount as int),
        Err(e) => Err(e),
    }
}

/// What settling does, for every input: `Unauthorized` for anyone but the
/// participation's owner, `AlreadyClaimed` on a second settle,
/// `NotSettleable` while the market is still active and unexpired; and
/// otherwise the payout engine's amount together with the one-way
/// `is_claimed` flip — set even when the amount is zero.
pub open spec fn withdraw_expired_spec(
    market: BetState,
    bet: UserBet,
    caller: AccountId,
    now: i64,
) -> (UserBet, Result<int, BetError>) {
    if caller != bet.user {
        (bet, Err(BetError::Unauthorized))
    } else if bet.is_claimed {
        (bet, Err(BetError::AlreadyClaimed))
    } else if market.status is Active && now < market.expires_at {
        (bet, Err(BetError::NotSettleable))
    } else {
        ((UserBet { is_claimed: true, ..bet }), Ok(spec_payout(market, bet)))
    }
}

/// Settle a participation: compute the payout owed under the market
/// snapshot, mark the record claimed, and return the amount the caller must
/// debit from escrow to the user — in the same atomic unit as the record
/// write, so a failed transfer commits nothing.
pub fn withdraw_expired(
    market: &BetState,
    bet: &mut UserBet,
    caller: AccountId,
    now: i64,
) -> (r: Result<u64, BetError>)
    requires
        old(bet).consistent_with(*market),
    ensures
        ({
            let (bet_after, owed) = withdraw_expired_spec(*market, *old(bet), caller, now);
            *final(bet) == bet_after && as_int_result(r) == owed
        }),
        r is Err ==> *final(bet) == *old(bet),
        r is Ok ==> final(bet).is_claimed,
        r matches Ok(paid) ==> paid <= market.total_pool,
{
    if caller != bet.user {
        return Err(BetError::Unauthorized);
    }
    if bet.is_claimed {
        return Err(BetError::AlreadyClaimed);
    }
    if market.status == BetStatus::Active && now < market.expires_at {
        return Err(BetError::NotSettleable);
    }
    let amount_to_return = compute_payout(market, bet);
    bet.is_claimed = true;
    Ok(amount_to_return)
}

// ---------------------------------------------------------------------------
// The laws of the state machine, proved over the spec transitions above.
// ---------------------------------------------------------------------------

/// The market after a sequence of admitted stakes.
pub open spec fn stakes_applied(market: BetState, stakes: Seq<(u64, BetOutcome)>) -> BetState
    decreases stakes.len(),
{
    if stakes.len() == 0 {
        market
    } else {
        stakes_applied(stake_applied(market, stakes[0].0, stakes[0].1), stakes.drop_first())
    }
}

/// Whether a whole sequence of stakes fits the pool counter, step by step.
pub open spec fn stakes_fit(market: BetState, stakes: Seq<(u64, BetOutcome)>) -> bool
    decreases stakes.len(),
{
    stakes.len() == 0 || (stake_fits(market, stakes[0].0) && stakes_fit(
        stake_applied(market, stakes[0].0, stakes[0].1),
        stakes.drop_first(),
    ))
}

/// One admitted stake keeps the pools consistent.
pub proof fn lemma_stake_keeps_pools_consistent(
    market: BetState,
    amount: u64,
    position: BetOutcome,
)
    requires
        market.pools_consistent(),
        stake_fits(market, amount),
    ensures
        stake_applied(market, amount, position).pools_consistent(),
{
}

/// A fitting prefix: every prefix of a fitting stake sequence fits too.
proof fn lemma_stakes_fit_prefix(market: BetState, stakes: Seq<(u64, BetOutcome)>, i: int)
    requires
        stakes_fit(market, stakes),
        0 <= i <= stakes.len(),
    ensures
        stakes_fit(market, stakes.take(i)),
    decreases stakes.len(),
{
    if i > 0 {
        let next = stake_applied(market, stakes[0].0, stakes[0].1);
        lemma_stakes_fit_prefix(next, stakes.drop_first(), i - 1);
        assert(stakes.take(i).drop_first() =~= stakes.drop_first().take(i - 1));
    }
}

/// Pool consistency survives any fitting sequence of admitted stakes.
proof fn lemma_stakes_keep_pools_consistent(market: BetState, stakes: Seq<(u64, BetOutcome)>)
    requires
        market.pools_consistent(),
        stakes_fit(market, stakes),
    ensures
        stakes_applied(market, stakes).pools_consistent(),
    decreases stakes.len(),
{
    if stakes.len() > 0 {
        let next = stake_applied(market, stakes[0].0, stakes[0].1);
        lemma_stake_keeps_pools_consistent(market, stakes[0].0, stakes[0].1);
        lemma_stakes_keep_pools_consistent(next, stakes.drop_first());
    }
}

/// Pool consistency: over any sequence of successful stake admissions that
/// fits the pool counter, `total_pool == yes_pool + no_pool` holds after
/// every single admission.
pub proof fn lemma_pool_consistency(market: BetState, stakes: Seq<(u64, BetOutcome)>)
    requires
        market.pools_consistent(),
        stakes_fit(market, stakes),
    ensures
        forall|i: int|
            0 <= i <= stakes.len() ==> (#[trigger] stakes_applied(
                market,
                stakes.take(i),
            )).pools_consistent(),
{
    assert forall|i: int|
        0 <= i <= stakes.len() implies (#[trigger] stakes_applied(
        market,
        stakes.take(i),
    )).pools_consistent() by {
        lemma_stakes_fit_prefix(market, stakes, i);
        lemma_stakes_keep_pools_consistent(market, stakes.take(i));
    }
}

/// Bounds enforcement: a stake below `min_bet_amount` or above
/// `max_bet_amount`, offered to an active unexpired market, always fails
/// with `InvalidAmount` and leaves the market unchanged.
pub proof fn lemma_bounds_enforcement(
    market: BetState,
    user: AccountId,
    bet_account: AccountId,
    amount: u64,
    position: BetOutcome,
    now: i64,
    has_participation: bool,
)
    requires
        market.status is Active,
        now < market.expires_at,
        amount < market.min_bet_amount || amount > market.max_bet_amount,
    ensures
        place_bet_spec(market, user, bet_account, amount, position, now, has_participation)
            == (market, Err::<UserBet, BetError>(BetError::InvalidAmount)),
{
}

/// Single resolution: the creator's first resolve succeeds and fixes the
/// outcome; a second resolve — by the creator again, with any outcome —
/// fails with `InvalidState` and changes nothing, so the outcome stays the
/// value the first call set.
pub proof fn lemma_single_resolution(market: BetState, first: BetOutcome, second: BetOutcome)
    requires
        market.status is Active,
    ensures
        ({
            let (once, first_result) = resolve_bet_spec(market, market.creator, first);
            let (twice, second_result) = resolve_bet_spec(once, market.creator, second);
            &&& first_result == Ok::<(), BetError>(())
            &&& second_result == Err::<(), BetError>(BetError::InvalidState)
            &&& twice == once
            &&& twice.outcome == Some(first)
        }),
{
}

/// No double pay: once a participation can be settled, the owner's first
/// settle pays the payout-engine amount and marks the record claimed; a
/// second settle, at any later reading of the clock, fails with
/// `AlreadyClaimed`, changes nothing and pays nothing.
pub proof fn lemma_no_double_pay(market: BetState, bet: UserBet, now1: i64, now2: i64)
    requires
        !bet.is_claimed,
        !(market.status is Active && now1 < market.expires_at),
    ensures
        ({
            let (claimed, first_result) = withdraw_expired_spec(market, bet, bet.user, now1);
            let (still, second_result) = withdraw_expired_spec(market, claimed, bet.user, now2);
            &&& first_result == Ok::<int, BetError>(spec_payout(market, bet))
            &&& claimed.is_claimed
            &&& second_result == Err::<int, BetError>(BetError::AlreadyClaimed)
            &&& still == claimed
        }),
{
}

/// Refund on no outcome: a market past its expiry that was never resolved
/// refunds every participation exactly its original stake at settlement.
pub proof fn lemma_refund_on_no_outcome(market: BetState, bet: UserBet, now: i64)
    requires
        market.status is Active,
        now >= market.expires_at,
        !bet.is_claimed,
    ensures
        withdraw_expired_spec(market, bet, bet.user, now) == ((UserBet { is_claimed: true, ..bet }),
        Ok::<int, BetError>(bet.amount as int)),
{
}

} // verus!
