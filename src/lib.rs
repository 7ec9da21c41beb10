//! An append-only, tamper-evident ledger of envelope-encrypted records,
//! each sealed into a proof-of-work block linked to its predecessor.

pub mod block;
pub mod chain;
pub mod digest;
pub mod envelope;
