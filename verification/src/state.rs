//! The persisted records of the market core: the market itself (`BetState`),
//! one participation record per (user, market) pair (`UserBet`), and the
//! enums they carry. Identities and storage keys are opaque to the core; it
//! only ever compares them for equality, so they are held as plain numbers
//! handed in by the host platform.

use vstd::prelude::*;

verus! {

/// An account identity or storage key of the host ledger. The core never
/// interprets it; it only records it and compares it for equality.
pub type AccountId = u64;

/// The side a stake is placed on, and the side a market is resolved to.
#[derive(Debug, Clone, Copy, PartialEq, Eq, Structural)]
pub enum BetOutcome {
    Yes,
    No,
}

/// The lifecycle status of a market. Only `Active` and `Resolved` are ever
/// entered; `Closed` and `Disputed` are reserved and no transition reaches
/// them.
#[derive(Debug, Clone, Copy, PartialEq, Eq, Structural)]
pub enum BetStatus {
    Active,
    Closed,
    Resolved,
    Disputed,
}

/// One betting market: its pools, bounds, timing, status and outcome.
#[derive(Debug, Clone, PartialEq)]
pub struct BetState {
    /// The identity permitted to resolve this market. Immutable.
    pub creator: AccountId,
    /// Handle of the escrow custody unit holding this market's funds.
    pub escrow_account: AccountId,
    /// Sum of every admitted stake; always `yes_pool + no_pool`.
    pub total_pool: u64,
    /// Sum of the stakes placed on `Yes`.
    pub yes_pool: u64,
    /// Sum of the stakes placed on `No`.
    pub no_pool: u64,
    /// Timestamp after which no further stake is admitted. Immutable.
    pub expires_at: i64,
    /// Lifecycle status; moves from `Active` to `Resolved` exactly once.
    pub status: BetStatus,
    /// Absent while `Active`; fixed at the `Resolved` transition.
    pub outcome: Option<BetOutcome>,
    /// Smallest admissible stake; strictly positive.
    pub min_bet_amount: u64,
    /// Largest admissible stake; at least `min_bet_amount`.
    pub max_bet_amount: u64,
    /// Whether this record has been initialized by market creation.
    pub is_initialized: bool,
}

/// One user's stake in one market.
#[derive(Debug, Clone, Copy, PartialEq, Eq, Structural)]
pub struct UserBet {
    /// The staker's identity. Immutable.
    pub user: AccountId,
    /// The market this stake belongs to; a lookup key only. Immutable.
    pub bet_account: AccountId,
    /// The stake, fixed at admission; within the market's bounds.
    pub amount: u64,
    /// The side staked on. Immutable.
    pub position: BetOutcome,
    /// False at admission; set true exactly once by settle, never reset.
    pub is_claimed: bool,
}

impl BetState {
    /// The pool of the given side.
    pub open spec fn spec_side_pool(self, side: BetOutcome) -> u64 {
        match side {
            BetOutcome::Yes => self.yes_pool,
            BetOutcome::No => self.no_pool,
        }
    }

    /// The fund-accounting invariant: the total pool is exactly the two side
    /// pools together.
    pub open spec fn pools_consistent(self) -> bool {
        self.total_pool == self.yes_pool + self.no_pool
    }

    /// The bet-size bounds invariant established at creation.
    pub open spec fn bounds_valid(self) -> bool {
        0 < self.min_bet_amount <= self.max_bet_amount
    }

    /// What market creation establishes and every operation preserves.
    pub open spec fn well_formed(self) -> bool {
        &&& self.pools_consistent()
        &&& self.bounds_valid()
        &&& (self.outcome is Some <==> self.status is Resolved)
    }

    /// The pool of the given side.
    pub fn side_pool(&self, side: BetOutcome) -> (r: u64)
        ensures
            r == self.spec_side_pool(side),
    {
        match side {
            BetOutcome::Yes => self.yes_pool,
            BetOutcome::No => self.no_pool,
        }
    }

    /// Whether this record has been initialized by market creation.
    pub fn is_initialized(&self) -> (r: bool)
        ensures
            r == self.is_initialized,
    {
        self.is_initialized
    }

    /// The byte size a stored market record occupies: every field at its
    /// encoded width (keys 32, integers 8, status 1, optional outcome 2,
    /// flag 1) plus 32 bytes of padding for alignment and future fields.
    pub fn calculate_space() -> (r: usize)
        ensures
            r == 148,
    {
        32 + // creator
        32 + // escrow_account
        8 + // total_pool
        8 + // yes_pool
        8 + // no_pool
        8 + // expires_at
        1 + // status
        2 + // outcome (tag + value)
        8 + // min_bet_amount
        8 + // max_bet_amount
        1 + // is_initialized
        32 // padding for alignment and future fields
    }
}

impl UserBet {
    /// A participation is consistent with the market it targets when its
    /// stake is within bounds and accounted for in its side's pool.
    pub open spec fn consistent_with(self, market: BetState) -> bool {
        &&& self.amount <= market.spec_side_pool(self.position)
        &&& market.pools_consistent()
    }

    /// The byte size a stored participation record occupies: keys 32 each,
    /// the stake 8, position and claim flag 1 each, plus 16 bytes of padding
    /// for alignment and future fields.
    pub fn calculate_space() -> (r: usize)
        ensures
            r == 90,
    {
        32 + // user
        32 + // bet_account
        8 + // amount
        1 + // position
        1 + // is_claimed
        16 // padding for alignment and future fields
    }
}

} // verus!
