//! A pari-mutuel binary betting market: participants stake funds on a yes/no
//! proposition before an expiry time; after resolution (or expiry without
//! resolution) each stake is settled into a proportional share of the total
//! pool, a refund, or nothing.
//!
//! The library holds the market lifecycle state machine and the
//! fund-accounting logic as pure functions over plain values: the host
//! platform's ledger, clock reads, signature checks and record storage stay
//! outside and hand in timestamps, identities and stored records.

pub mod error;
pub mod instruction;
pub mod payout;
pub mod processor;
pub mod state;
