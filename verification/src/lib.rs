//! A transaction ledger: deposits, withdrawals and the dispute lifecycle are
//! folded, in order, over per-client accounts held in fixed-point minor units.

pub mod amount;
pub mod account;
pub mod ledger;
pub mod laws;
pub mod token;
