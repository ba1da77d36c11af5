//! Normalisation and sweep bookkeeping for a ledger block indexer.

pub mod amount;
pub mod decimal;
pub mod indexer;
pub mod ledger;
pub mod sweep;
