//! Why the ledger turns an event down.

use crate::amount::Amount;
use vstd::prelude::*;

verus! {

/// Why a deposit or a withdrawal was turned down.
#[derive(Copy, Clone, Debug, PartialEq, Eq, Structural)]
pub enum OperationError {
    /// An operation with this `tx` is already in the ledger.
    TransactionExists(u32),
    /// The withdrawal `tx` asked for the first amount while only the second
    /// was available.
    WithdrawExceeded(u32, Amount, Amount),
    /// The account of this client is locked.
    Locked(u16),
}

/// Why a dispute transaction was turned down.
#[derive(Copy, Clone, Debug, PartialEq, Eq, Structural)]
pub enum DisputeError {
    /// A dispute on this `tx` is already open.
    DisputeExists(u32),
    /// No dispute on this `tx` is open.
    DisputeDoesntExists(u32),
    /// No operation with this `tx` is in the ledger.
    TransactionDoesntExists(u32),
    /// The dispute on `tx` was opened by someone other than this client, who
    /// tried to resolve it.
    DisputeConflict(u32, u16),
    /// A chargeback on `tx` was asked for by the first client, while the
    /// operation belongs to the second.
    ChargebackConflict(u32, u16, u16),
    /// The account of this client is locked.
    Locked(u16),
}

} // verus!
