//! Escrow reward ledger: fee intake, per-escrow reward bookkeeping, payout and
//! fee withdrawal, as verified state transitions.

pub mod laws;
pub mod pool;
pub mod rules;
pub mod types;
