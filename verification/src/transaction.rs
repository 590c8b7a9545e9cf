//! The two families of ledger events: operations, which move value, and
//! dispute transactions, which refer to an earlier operation.

use crate::amount::Amount;
use vstd::prelude::*;

verus! {

/// The direction in which an operation moves value.
#[derive(Copy, Clone, Debug, PartialEq, Eq, Structural)]
pub enum OperationTransactionType {
    /// Value enters the account.
    Deposit,
    /// Value leaves the account.
    Withdrawal,
}

/// What an [`OperationTransaction`] says, with its amount as an integer number
/// of ten-thousandths.
pub struct OperationView {
    pub kind: OperationTransactionType,
    pub client: u16,
    pub tx: u32,
    pub amount: int,
}

/// A deposit or a withdrawal. Operations are entered into the ledger under
/// their `tx`, and never change once built.
#[derive(Copy, Clone, Debug)]
pub struct OperationTransaction {
    transaction_type: OperationTransactionType,
    client: u16,
    tx: u32,
    amount: Amount,
}

impl View for OperationTransaction {
    type V = OperationView;

    closed spec fn view(&self) -> OperationView {
        OperationView {
            kind: self.transaction_type,
            client: self.client,
            tx: self.tx,
            amount: self.amount@,
        }
    }
}

impl OperationTransaction {
    /// No operation moves a negative amount.
    #[verifier::type_invariant]
    spec fn amount_is_non_negative(self) -> bool {
        self.amount.units >= 0
    }

    pub fn new(
        transaction_type: OperationTransactionType,
        client: u16,
        tx: u32,
        amount: Amount,
    ) -> (t: Self)
        requires
            amount@ >= 0,
        ensures
            t@ == (OperationView { kind: transaction_type, client, tx, amount: amount@ }),
    {
        Self { transaction_type, client, tx, amount }
    }

    pub fn transaction_type(&self) -> (kind: OperationTransactionType)
        ensures
            kind == self@.kind,
    {
        self.transaction_type
    }

    pub fn client(&self) -> (client: u16)
        ensures
            client == self@.client,
    {
        self.client
    }

    pub fn tx(&self) -> (tx: u32)
        ensures
            tx == self@.tx,
    {
        self.tx
    }

    pub fn amount(&self) -> (amount: Amount)
        ensures
            amount@ == self@.amount,
            amount@ >= 0,
    {
        proof {
            use_type_invariant(self);
        }
        self.amount
    }
}

/// The step of the dispute lifecycle that a dispute transaction takes.
#[derive(Copy, Clone, Debug, PartialEq, Eq, Structural)]
pub enum DisputeTransactionType {
    /// Disputes the referenced operation and opens a dispute.
    Dispute,
    /// Closes an open dispute and releases what it held.
    Resolve,
    /// Closes an open dispute by reversing the operation; locks the account.
    Chargeback,
}

/// What a [`DisputeTransaction`] says.
pub struct DisputeView {
    pub kind: DisputeTransactionType,
    pub client: u16,
    pub tx: u32,
}

/// A step of the dispute lifecycle. `client` is whoever issued it; `tx` names
/// the operation it is about.
#[derive(Copy, Clone, Debug)]
pub struct DisputeTransaction {
    transaction_type: DisputeTransactionType,
    client: u16,
    tx: u32,
}

impl View for DisputeTransaction {
    type V = DisputeView;

    closed spec fn view(&self) -> DisputeView {
        DisputeView { kind: self.transaction_type, client: self.client, tx: self.tx }
    }
}

impl DisputeTransaction {
    pub fn new(transaction_type: DisputeTransactionType, client: u16, tx: u32) -> (t: Self)
        ensures
            t@ == (DisputeView { kind: transaction_type, client, tx }),
    {
        Self { transaction_type, client, tx }
    }

    pub fn transaction_type(&self) -> (kind: DisputeTransactionType)
        ensures
            kind == self@.kind,
    {
        self.transaction_type
    }

    pub fn client(&self) -> (client: u16)
        ensures
            client == self@.client,
    {
        self.client
    }

    pub fn tx(&self) -> (tx: u32)
        ensures
            tx == self@.tx,
    {
        self.tx
    }
}

/// What a [`Transaction`] says.
pub enum EventView {
    Operation(OperationView),
    Dispute(DisputeView),
}

/// Any event the ledger accepts, in normal form: an operation always has its
/// amount, a dispute transaction has none.
#[derive(Copy, Clone, Debug)]
pub enum Transaction {
    Operation(OperationTransaction),
    Dispute(DisputeTransaction),
}

impl View for Transaction {
    type V = EventView;

    open spec fn view(&self) -> EventView {
        match *self {
            Transaction::Operation(o) => EventView::Operation(o@),
            Transaction::Dispute(d) => EventView::Dispute(d@),
        }
    }
}

/// What the events say, one by one.
pub open spec fn views(events: Seq<Transaction>) -> Seq<EventView> {
    events.map_values(|t: Transaction| t@)
}

} // verus!
