//! A ledger of client accounts driven by deposits, withdrawals and the
//! dispute lifecycle (dispute, resolve, chargeback).
//!
//! Money is counted exactly, in ten-thousandths of a unit. Every account keeps
//! `total == available + held` through every transition, and the contracts of
//! this crate say so in terms of a mathematical model of the ledger.

pub mod amount;
pub mod authority;
pub mod client;
pub mod error;
pub mod laws;
pub mod ledger;
pub mod transaction;
pub mod transcode;

pub use amount::Amount;
pub use authority::Authority;
pub use client::Client;
pub use error::{DisputeError, OperationError};
pub use transaction::{
    DisputeTransaction, DisputeTransactionType, OperationTransaction, OperationTransactionType,
    Transaction,
};
pub use transcode::transcode;
