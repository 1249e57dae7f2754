//! The instructions the market core accepts, and the decoder for their wire
//! form. An encoded instruction is an outer dispatch byte followed by the
//! instruction record: the record's own variant byte and its fields in
//! order, integers little-endian, an outcome as one byte (0 for `Yes`, 1
//! for `No`). The outer byte must agree with the record's variant byte; a
//! withdraw instruction is the dispatch byte alone and any trailing bytes
//! are ignored.

use vstd::prelude::*;
use vstd::bytes::{spec_u64_from_le_bytes, u64_from_le_bytes};
use vstd::slice::{slice_index_get, slice_subrange};
use crate::error::BetError;
use crate::state::BetOutcome;

verus! {

/// The operations of the market core, as carried on the wire.
#[derive(Debug, Clone, Copy, PartialEq, Eq, Structural)]
pub enum BetInstruction {
    /// Open a market with the given expiry and bet-size bounds.
    InitializeBet { expires_at: i64, min_bet: u64, max_bet: u64 },
    /// Stake `amount` on `position` in a market.
    PlaceBet { amount: u64, position: BetOutcome },
    /// Declare the market's outcome.
    ResolveBet { outcome: BetOutcome },
    /// Settle the caller's participation after resolution or expiry.
    WithdrawExpired {},
}

/// The signed 64-bit integer held by eight little-endian bytes.
pub open spec fn spec_i64_from_le_bytes(s: Seq<u8>) -> i64 {
    spec_u64_from_le_bytes(s) as i64
}

/// The outcome a single wire byte stands for, if any.
pub open spec fn spec_outcome_from_byte(b: u8) -> Option<BetOutcome> {
    if b == 0 {
        Some(BetOutcome::Yes)
    } else if b == 1 {
        Some(BetOutcome::No)
    } else {
        None
    }
}

/// The instruction a byte string encodes, if any: the whole wire grammar in
/// one place. Offset 0 is the dispatch byte, offset 1 the record's variant
/// byte, and the fields follow; a record must fill the input exactly.
pub open spec fn spec_unpack(input: Seq<u8>) -> Option<BetInstruction> {
    if input.len() == 0 {
        None
    } else if input[0] == 0 {
        if input.len() == 26 && input[1] == 0 {
            Some(
                BetInstruction::InitializeBet {
                    expires_at: spec_i64_from_le_bytes(input.subrange(2, 10)),
                    min_bet: spec_u64_from_le_bytes(input.subrange(10, 18)),
                    max_bet: spec_u64_from_le_bytes(input.subrange(18, 26)),
                },
            )
        } else {
            None
        }
    } else if input[0] == 1 {
        if input.len() == 11 && input[1] == 1 && spec_outcome_from_byte(input[10]) is Some {
            Some(
                BetInstruction::PlaceBet {
                    amount: spec_u64_from_le_bytes(input.subrange(2, 10)),
                    position: spec_outcome_from_byte(input[10])->0,
                },
            )
        } else {
            None
        }
    } else if input[0] == 2 {
        if input.len() == 3 && input[1] == 2 && spec_outcome_from_byte(input[2]) is Some {
            Some(BetInstruction::ResolveBet { outcome: spec_outcome_from_byte(input[2])->0 })
        } else {
            None
        }
    } else if input[0] == 3 {
        Some(BetInstruction::WithdrawExpired {})
    } else {
        None
    }
}

impl BetInstruction {
    /// Decode a byte string into the instruction it encodes, or refuse it
    /// as `InvalidInstructionData` when it encodes none.
    pub fn unpack(input: &[u8]) -> (r: Result<BetInstruction, BetError>)
        ensures
            match spec_unpack(input@) {
                Some(instruction) => r == Ok::<BetInstruction, BetError>(instruction),
                None => r == Err::<BetInstruction, BetError>(BetError::InvalidInstructionData),
            },
    {
        if input.len() == 0 {
            return Err(BetError::InvalidInstructionData);
        }
        let tag = *slice_index_get(input, 0);
        if tag == 0 {
            if input.len() != 26 || *slice_index_get(input, 1) != 0 {
                return Err(BetError::InvalidInstructionData);
            }
            let expires_at = #[verifier::truncate] (u64_from_le_bytes(
                slice_subrange(input, 2, 10),
            ) as i64);
            let min_bet = u64_from_le_bytes(slice_subrange(input, 10, 18));
            let max_bet = u64_from_le_bytes(slice_subrange(input, 18, 26));
            Ok(BetInstruction::InitializeBet { expires_at, min_bet, max_bet })
        } else if tag == 1 {
            if input.len() != 11 || *slice_index_get(input, 1) != 1 {
                return Err(BetError::InvalidInstructionData);
            }
            let amount = u64_from_le_bytes(slice_subrange(input, 2, 10));
            let position_byte = *slice_index_get(input, 10);
            let position = if position_byte == 0 {
                BetOutcome::Yes
            } else if position_byte == 1 {
                BetOutcome::No
            } else {
                return Err(BetError::InvalidInstructionData);
            };
            Ok(BetInstruction::PlaceBet { amount, position })
        } else if tag == 2 {
            if input.len() != 3 || *slice_index_get(input, 1) != 2 {
                return Err(BetError::InvalidInstructionData);
            }
            let outcome_byte = *slice_index_get(input, 2);
            let outcome = if outcome_byte == 0 {
                BetOutcome::Yes
            } else if outcome_byte == 1 {
                BetOutcome::No
            } else {
                return Err(BetError::InvalidInstructionData);
            };
            Ok(BetInstruction::ResolveBet { outcome })
        } else if tag == 3 {
            Ok(BetInstruction::WithdrawExpired {})
        } else {
            Err(BetError::InvalidInstructionData)
        }
    }
}

} // verus!
