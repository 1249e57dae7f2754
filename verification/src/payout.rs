//! The payout engine: a pure function from a (market, participation)
//! snapshot to the amount owed at settlement, and the proof that paying
//! every winner its proportional share never pays out more than the pool
//! holds (integer floor division only under-pays, leaving dust).

use vstd::prelude::*;
use vstd::arithmetic::div_mod::{
    lemma_div_is_ordered, lemma_div_multiples_vanish, lemma_div_pos_is_pos,
    lemma_fundamental_div_mod, lemma_mod_bound, lemma_multiply_divide_le,
};
use vstd::arithmetic::mul::{
    lemma_mul_inequality, lemma_mul_is_commutative, lemma_mul_is_distributive_add,
    lemma_mul_nonnegative, lemma_mul_upper_bound,
};
use crate::state::{BetOutcome, BetState, BetStatus, UserBet};

verus! {

/// The share of the total pool owed to one winning stake of `amount` when
/// the winning side's pool holds `winning_pool` in all: the stake's
/// proportional slice, rounded down.
pub open spec fn winner_share(total_pool: u64, winning_pool: u64, amount: u64) -> int {
    (total_pool * amount) / (winning_pool as int)
}

/// The amount settling a participation pays out, as a mathematical value.
/// A market never resolved (the time-expired path) refunds the stake. A
/// resolved market pays a winning stake its proportional pool share and a
/// losing stake nothing — except in the degenerate resolution in favour of
/// a side nobody staked on: with no winner to pay, every participation is
/// refunded its principal rather than the pool being stranded.
pub open spec fn spec_payout(market: BetState, bet: UserBet) -> int {
    if market.status is Resolved && market.outcome is Some {
        let outcome = market.outcome->0;
        let winning_pool = market.spec_side_pool(outcome);
        if winning_pool == 0 {
            bet.amount as int
        } else if bet.position == outcome {
            winner_share(market.total_pool, winning_pool, bet.amount)
        } else {
            0
        }
    } else {
        bet.amount as int
    }
}

/// A winner's share never exceeds the whole pool: if the stake is no more
/// than the winning side's pool, `total_pool * amount / winning_pool` is at
/// most `total_pool`.
pub proof fn lemma_winner_share_le_total(total_pool: u64, winning_pool: u64, amount: u64)
    requires
        0 < winning_pool,
        amount <= winning_pool,
    ensures
        0 <= winner_share(total_pool, winning_pool, amount) <= total_pool,
{
    lemma_mul_nonnegative(total_pool as int, amount as int);
    lemma_div_pos_is_pos(total_pool * amount, winning_pool as int);
    lemma_mul_inequality(amount as int, winning_pool as int, total_pool as int);
    lemma_mul_is_commutative(amount as int, total_pool as int);
    lemma_mul_is_commutative(winning_pool as int, total_pool as int);
    lemma_multiply_divide_le(total_pool * amount, winning_pool as int, total_pool as int);
}

/// No settlement overdraws the pool: on a consistent snapshot the payout —
/// refund, zero or proportional share alike — is at most the total pool.
pub proof fn lemma_payout_le_total(market: BetState, bet: UserBet)
    requires
        bet.consistent_with(market),
    ensures
        0 <= spec_payout(market, bet) <= market.total_pool,
{
    if market.status is Resolved && market.outcome is Some {
        let outcome = market.outcome->0;
        let winning_pool = market.spec_side_pool(outcome);
        if winning_pool != 0 && bet.position == outcome {
            lemma_winner_share_le_total(market.total_pool, winning_pool, bet.amount);
        }
    }
}

/// The payout owed to the given participation under the given market
/// snapshot. Pure: no side effect, usable on any consistent snapshot.
pub fn compute_payout(market: &BetState, bet: &UserBet) -> (r: u64)
    requires
        bet.consistent_with(*market),
    ensures
        r == spec_payout(*market, *bet),
        r <= market.total_pool,
{
    proof {
        lemma_payout_le_total(*market, *bet);
    }
    if market.status == BetStatus::Resolved {
        match market.outcome {
            Some(outcome) => {
                let winning_pool = market.side_pool(outcome);
                if winning_pool == 0 {
                    // Degenerate market: resolved in favour of a side nobody
                    // staked on; refund the principal.
                    bet.amount
                } else {
                    if bet.position == outcome {
                        proof {
                            lemma_winner_share_le_total(
                                market.total_pool,
                                winning_pool,
                                bet.amount,
                            );
                            lemma_mul_upper_bound(
                                market.total_pool as int,
                                u64::MAX as int,
                                bet.amount as int,
                                u64::MAX as int,
                            );
                        }
                        let wide: u128 = (market.total_pool as u128) * (bet.amount as u128);
                        (wide / (winning_pool as u128)) as u64
                    } else {
                        0
                    }
                }
            },
            None => bet.amount,
        }
    } else {
        bet.amount
    }
}

/// The sum of a sequence of stakes.
pub open spec fn sum_amounts(amounts: Seq<u64>) -> int
    decreases amounts.len(),
{
    if amounts.len() == 0 {
        0
    } else {
        amounts[0] + sum_amounts(amounts.drop_first())
    }
}

/// The sum of the shares owed to a sequence of winning stakes.
pub open spec fn sum_winner_shares(total_pool: u64, winning_pool: u64, amounts: Seq<u64>) -> int
    decreases amounts.len(),
{
    if amounts.len() == 0 {
        0
    } else {
        winner_share(total_pool, winning_pool, amounts[0]) + sum_winner_shares(
            total_pool,
            winning_pool,
            amounts.drop_first(),
        )
    }
}

/// Floor division loses to the sum: `x / d + y / d <= (x + y) / d`.
proof fn lemma_div_superadditive(x: int, y: int, d: int)
    requires
        0 <= x,
        0 <= y,
        0 < d,
    ensures
        x / d + y / d <= (x + y) / d,
{
    lemma_fundamental_div_mod(x, d);
    lemma_fundamental_div_mod(y, d);
    lemma_mod_bound(x, d);
    lemma_mod_bound(y, d);
    lemma_mul_is_distributive_add(d, x / d, y / d);
    lemma_div_is_ordered(d * (x / d + y / d), x + y, d);
    lemma_div_multiples_vanish(x / d + y / d, d);
}

/// The shares owed to a sequence of stakes sum to no more than the single
/// share owed to their combined stake.
proof fn lemma_sum_shares_le_combined_share(
    total_pool: u64,
    winning_pool: u64,
    amounts: Seq<u64>,
)
    requires
        0 < winning_pool,
    ensures
        0 <= sum_amounts(amounts),
        sum_winner_shares(total_pool, winning_pool, amounts) <= (total_pool * sum_amounts(
            amounts,
        )) / (winning_pool as int),
    decreases amounts.len(),
{
    if amounts.len() == 0 {
        lemma_div_pos_is_pos(0, winning_pool as int);
    } else {
        let rest = amounts.drop_first();
        lemma_sum_shares_le_combined_share(total_pool, winning_pool, rest);
        lemma_mul_nonnegative(total_pool as int, amounts[0] as int);
        lemma_mul_nonnegative(total_pool as int, sum_amounts(rest));
        lemma_div_superadditive(
            total_pool * amounts[0],
            total_pool * sum_amounts(rest),
            winning_pool as int,
        );
        lemma_mul_is_distributive_add(total_pool as int, amounts[0] as int, sum_amounts(rest));
    }
}

/// Payout conservation: when the winning stakes together do not exceed the
/// winning side's pool, the floor-divided shares paid to all of them sum to
/// at most the total pool — dust is under-paid, never over-paid.
pub proof fn lemma_payout_conservation(total_pool: u64, winning_pool: u64, amounts: Seq<u64>)
    requires
        0 < winning_pool,
        sum_amounts(amounts) <= winning_pool,
    ensures
        sum_winner_shares(total_pool, winning_pool, amounts) <= total_pool,
{
    lemma_sum_shares_le_combined_share(total_pool, winning_pool, amounts);
    lemma_mul_nonnegative(total_pool as int, sum_amounts(amounts));
    lemma_mul_inequality(sum_amounts(amounts), winning_pool as int, total_pool as int);
    lemma_mul_is_commutative(sum_amounts(amounts), total_pool as int);
    lemma_mul_is_commutative(winning_pool as int, total_pool as int);
    lemma_multiply_divide_le(
        total_pool * sum_amounts(amounts),
        winning_pool as int,
        total_pool as int,
    );
}

/// The sum of the payouts owed to a sequence of participations under one
/// market snapshot.
pub open spec fn sum_payouts(market: BetState, bets: Seq<UserBet>) -> int
    decreases bets.len(),
{
    if bets.len() == 0 {
        0
    } else {
        spec_payout(market, bets[0]) + sum_payouts(market, bets.drop_first())
    }
}

/// For winning participations, each payout is the winner's share, so their
/// sum is the sum of shares of their stakes.
proof fn lemma_sum_payouts_are_winner_shares(market: BetState, bets: Seq<UserBet>)
    requires
        market.status is Resolved,
        market.outcome is Some,
        market.spec_side_pool(market.outcome->0) > 0,
        forall|i: int| 0 <= i < bets.len() ==> (#[trigger] bets[i]).position == market.outcome->0,
    ensures
        sum_payouts(market, bets) == sum_winner_shares(
            market.total_pool,
            market.spec_side_pool(market.outcome->0),
            bets.map_values(|b: UserBet| b.amount),
        ),
    decreases bets.len(),
{
    let amounts = bets.map_values(|b: UserBet| b.amount);
    if bets.len() > 0 {
        lemma_sum_payouts_are_winner_shares(market, bets.drop_first());
        assert(amounts.drop_first() =~= bets.drop_first().map_values(|b: UserBet| b.amount));
    } else {
        assert(amounts.len() == 0);
    }
}

/// Payout conservation over the records themselves: a resolved market whose
/// winning side holds the stakes of all its winning participations pays
/// them, through the payout engine, at most the total pool in all.
pub proof fn lemma_settlements_conserve_pool(market: BetState, bets: Seq<UserBet>)
    requires
        market.status is Resolved,
        market.outcome is Some,
        market.spec_side_pool(market.outcome->0) > 0,
        forall|i: int| 0 <= i < bets.len() ==> (#[trigger] bets[i]).position == market.outcome->0,
        sum_amounts(bets.map_values(|b: UserBet| b.amount)) <= market.spec_side_pool(
            market.outcome->0,
        ),
    ensures
        sum_payouts(market, bets) <= market.total_pool,
{
    lemma_sum_payouts_are_winner_shares(market, bets);
    lemma_payout_conservation(
        market.total_pool,
        market.spec_side_pool(market.outcome->0),
        bets.map_values(|b: UserBet| b.amount),
    );
}

} // verus!
