//! A single-item English auction with ledger-resident escrow.
//!
//! Bidders deposit funds into a program-controlled treasury pool; the pool
//! always holds exactly the funds needed to refund every non-winning bidder,
//! and the seller can claim the winning amount only after the auction closes.
//! Identities are plain account numbers, time is a caller-supplied timestamp,
//! and balances live in a verified table, so every rule of the state machine
//! is stated in a contract and proved.

pub mod bank;
pub mod errors;
pub mod escrow;
pub mod laws;
pub mod model;
pub mod ops;
pub mod state;
