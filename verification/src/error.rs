//! The error taxonomy of the market core. Every failure aborts the whole
//! operation with no state change; none is recovered or downgraded locally.

use vstd::prelude::*;

verus! {

/// Why a market operation was refused.
#[derive(Debug, Clone, Copy, PartialEq, Eq, Structural)]
pub enum BetError {
    /// The caller is not the identity the operation demands (the creator for
    /// resolve, the participation's owner for settle).
    Unauthorized,
    /// The market is not in the status the operation demands.
    InvalidState,
    /// A stake arrived at or after the market's expiry time.
    MarketExpired,
    /// A stake lies outside the market's `min_bet ..= max_bet` bounds.
    InvalidAmount,
    /// Market creation was asked for with a non-future expiry or with
    /// `min_bet == 0 || max_bet < min_bet`.
    InvalidParameters,
    /// The user already holds a participation in this market; no top-ups.
    DuplicateParticipation,
    /// The participation was settled before; a second settle pays nothing.
    AlreadyClaimed,
    /// Settle was attempted while the market is still active and unexpired.
    NotSettleable,
    /// The external fund-transfer capability refused to move the funds.
    TransferFailure,
    /// An instruction byte string does not encode any instruction.
    InvalidInstructionData,
}

} // verus!
