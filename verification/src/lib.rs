//! A verified multi-token ledger: a collection of fungible token types with
//! per-owner balances, supply accounting, and time-bounded operator grants.
//!
//! The ledger state is an explicit value passed to every operation; the host
//! that persists it between calls is outside this crate.

pub mod contract;
pub mod error;
pub mod execute;
pub mod helpers;
pub mod laws;
pub mod lexord;
pub mod msg;
pub mod query;
pub mod rows;
pub mod state;

pub use crate::error::ContractError;
pub use crate::state::Expiration;
