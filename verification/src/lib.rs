//! Multi-asset, milestone-based escrow: a verified state machine that holds
//! funds for a source party and releases them to a recipient milestone by
//! milestone, as an arbiter approves them.
//!
//! - [`asset`] and [`totals`]: amounts of native coins and of tokens, how
//!   they merge, and what a merge conserves.
//! - [`expiration`]: deadlines by height and by time.
//! - [`state`], [`milestones`] and [`whitelist`]: the escrow record and what
//!   holds of every stored one.
//! - [`registry`]: the store of escrows, keyed by identifier.
//! - [`msg`] and [`contract`]: the requests, and what each operation
//!   decides, changes and answers.
//! - [`transfer`]: the instructions that an operation leaves for the ledger.
//! - [`laws`]: what holds across operations.

pub mod asset;
pub mod contract;
pub mod error;
pub mod expiration;
pub mod laws;
pub mod milestones;
pub mod msg;
pub mod registry;
pub mod state;
pub mod text;
pub mod totals;
pub mod transfer;
pub mod whitelist;

pub use crate::error::ContractError;
