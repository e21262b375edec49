//! A ledger-and-inventory state machine: a catalog of purchasable
//! items with bounded stock and positive prices, a token treasury in
//! one of two modes, and a small set of transitions gated by
//! authorization and numeric invariants, each specified exactly and
//! proved to commit all of its writes or none.

pub mod contract;
pub mod error;
pub mod ledger;
pub mod msg;
pub mod order;
pub mod query;
pub mod state;

pub use crate::error::ContractError;
