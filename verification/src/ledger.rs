//! The ledger as mathematics: accounts, recorded operations and open
//! disputes as maps, and what each event does to them.

use crate::client::AccountView;
use crate::error::{DisputeError, OperationError};
use crate::transaction::{DisputeTransactionType, DisputeView, EventView, OperationView};
use vstd::prelude::*;

verus! {

/// One more than the largest transaction id.
pub open spec fn tx_limit() -> nat {
    0x1_0000_0000
}

/// What the operation `tx` adds to what is held for `client`: its amount
/// while a dispute on it is open and it belongs to `client`, else nothing.
pub open spec fn held_for(
    operations: Map<u32, OperationView>,
    disputes: Map<u32, DisputeView>,
    client: u16,
    tx: u32,
) -> int {
    if disputes.contains_key(tx) && operations.contains_key(tx) && operations[tx].client
        == client {
        operations[tx].amount
    } else {
        0
    }
}

/// The sum of [`held_for`] over the transaction ids below `bound`.
pub open spec fn held_below(
    operations: Map<u32, OperationView>,
    disputes: Map<u32, DisputeView>,
    client: u16,
    bound: nat,
) -> int
    decreases bound,
{
    if bound == 0 {
        0
    } else {
        held_below(operations, disputes, client, (bound - 1) as nat) + held_for(
            operations,
            disputes,
            client,
            (bound - 1) as u32,
        )
    }
}

/// Why an event was turned down.
#[derive(Copy, Clone, Debug, PartialEq, Eq, Structural)]
pub enum Rejection {
    Operation(OperationError),
    Dispute(DisputeError),
}

/// The whole state of the ledger.
pub struct LedgerView {
    /// The account of every client seen so far.
    pub accounts: Map<u16, AccountView>,
    /// Every operation that was applied, by its `tx`.
    pub operations: Map<u32, OperationView>,
    /// The dispute that is open on an operation, by the operation's `tx`.
    pub disputes: Map<u32, DisputeView>,
}

impl LedgerView {
    /// The ledger before any event.
    pub open spec fn empty() -> LedgerView {
        LedgerView { accounts: Map::empty(), operations: Map::empty(), disputes: Map::empty() }
    }

    /// The account of `client`; a client not seen yet has an empty one.
    pub open spec fn account(self, client: u16) -> AccountView {
        if self.accounts.contains_key(client) {
            self.accounts[client]
        } else {
            AccountView::opened(client)
        }
    }

    /// Everything held for `client`: the amounts of its operations under
    /// dispute.
    pub open spec fn held_total(self, client: u16) -> int {
        held_below(self.operations, self.disputes, client, tx_limit())
    }

    /// What holds of every ledger that events have built: accounts stand
    /// under their own id and are balanced; operations stand under their own
    /// `tx`, move no negative amount and belong to a client with an account;
    /// disputes are on recorded operations; and an account holds exactly the
    /// amounts of its operations under dispute.
    pub open spec fn well_formed(self) -> bool {
        &&& forall|c: u16| #[trigger]
            self.accounts.contains_key(c) ==> {
                &&& self.accounts[c].id == c
                &&& self.accounts[c].balanced()
                &&& self.accounts[c].held == self.held_total(c)
            }
        &&& forall|tx: u32| #[trigger]
            self.operations.contains_key(tx) ==> {
                &&& self.operations[tx].tx == tx
                &&& self.operations[tx].amount >= 0
                &&& self.accounts.contains_key(self.operations[tx].client)
            }
        &&& forall|tx: u32| #[trigger]
            self.disputes.contains_key(tx) ==> {
                &&& self.operations.contains_key(tx)
                &&& self.disputes[tx].tx == tx
                &&& self.disputes[tx].kind == DisputeTransactionType::Dispute
            }
    }

    /// Whether the ledger takes the operation `op`, and why not. An `op`
    /// whose `tx` is recorded already is turned down whatever else it says.
    pub open spec fn operation_result(self, op: OperationView) -> Result<(), OperationError> {
        if self.operations.contains_key(op.tx) {
            Err(OperationError::TransactionExists(op.tx))
        } else {
            self.account(op.client).operation_result(op)
        }
    }

    /// The ledger after `op` was offered to it. A duplicate changes nothing.
    /// Otherwise the client has an account from now on, and the operation is
    /// recorded if the account took it.
    pub open spec fn after_operation(self, op: OperationView) -> LedgerView {
        if self.operations.contains_key(op.tx) {
            self
        } else {
            LedgerView {
                accounts: self.accounts.insert(
                    op.client,
                    self.account(op.client).after_operation(op),
                ),
                operations: if self.operation_result(op) is Ok {
                    self.operations.insert(op.tx, op)
                } else {
                    self.operations
                },
                disputes: self.disputes,
            }
        }
    }

    /// Whether the ledger takes the dispute transaction `d`, and why not.
    pub open spec fn dispute_result(self, d: DisputeView) -> Result<(), DisputeError> {
        if !self.operations.contains_key(d.tx) {
            Err(DisputeError::TransactionDoesntExists(d.tx))
        } else {
            let op = self.operations[d.tx];
            match d.kind {
                DisputeTransactionType::Dispute => if self.disputes.contains_key(d.tx) {
                    Err(DisputeError::DisputeExists(d.tx))
                } else {
                    Ok(())
                },
                DisputeTransactionType::Resolve => if !self.disputes.contains_key(d.tx) {
                    Err(DisputeError::DisputeDoesntExists(d.tx))
                } else if d.client != self.disputes[d.tx].client {
                    Err(DisputeError::DisputeConflict(d.tx, d.client))
                } else {
                    self.account(op.client).closing_result()
                },
                DisputeTransactionType::Chargeback => if !self.disputes.contains_key(d.tx) {
                    Err(DisputeError::DisputeDoesntExists(d.tx))
                } else if d.client != op.client {
                    Err(DisputeError::ChargebackConflict(d.tx, d.client, op.client))
                } else {
                    self.account(op.client).closing_result()
                },
            }
        }
    }

    /// The ledger after `d` was offered to it. One that is turned down changes
    /// nothing. Otherwise the account that owns the disputed operation moves,
    /// whoever issued `d`, and the dispute is opened or closed.
    pub open spec fn after_dispute(self, d: DisputeView) -> LedgerView {
        if self.dispute_result(d) is Err {
            self
        } else {
            let op = self.operations[d.tx];
            let account = self.account(op.client);
            match d.kind {
                DisputeTransactionType::Dispute => LedgerView {
                    accounts: self.accounts.insert(op.client, account.after_dispute(op)),
                    disputes: self.disputes.insert(d.tx, d),
                    ..self
                },
                DisputeTransactionType::Resolve => LedgerView {
                    accounts: self.accounts.insert(op.client, account.after_resolve(op)),
                    disputes: self.disputes.remove(d.tx),
                    ..self
                },
                DisputeTransactionType::Chargeback => LedgerView {
                    accounts: self.accounts.insert(op.client, account.after_chargeback(op)),
                    disputes: self.disputes.remove(d.tx),
                    ..self
                },
            }
        }
    }

    /// Whether the balances that `op` leads to can be held.
    pub open spec fn admits_operation(self, op: OperationView) -> bool {
        self.after_operation(op).account(op.client).fits()
    }

    /// Whether the balances that `d` leads to can be held.
    pub open spec fn admits_dispute(self, d: DisputeView) -> bool {
        self.operations.contains_key(d.tx) ==> self.after_dispute(d).account(
            self.operations[d.tx].client,
        ).fits()
    }

    /// Whether the balances that the event leads to can be held.
    pub open spec fn admits(self, event: EventView) -> bool {
        match event {
            EventView::Operation(op) => self.admits_operation(op),
            EventView::Dispute(d) => self.admits_dispute(d),
        }
    }

    /// Whether the ledger takes the event, and why not.
    pub open spec fn event_result(self, event: EventView) -> Result<(), Rejection> {
        match event {
            EventView::Operation(op) => match self.operation_result(op) {
                Ok(()) => Ok(()),
                Err(e) => Err(Rejection::Operation(e)),
            },
            EventView::Dispute(d) => match self.dispute_result(d) {
                Ok(()) => Ok(()),
                Err(e) => Err(Rejection::Dispute(e)),
            },
        }
    }

    /// The ledger after the event was offered to it.
    pub open spec fn after_event(self, event: EventView) -> LedgerView {
        match event {
            EventView::Operation(op) => self.after_operation(op),
            EventView::Dispute(d) => self.after_dispute(d),
        }
    }

    /// The ledger after the events were offered to it in order. An event that
    /// is turned down does not stop those after it.
    pub open spec fn after_events(self, events: Seq<EventView>) -> LedgerView
        decreases events.len(),
    {
        if events.len() == 0 {
            self
        } else {
            self.after_events(events.drop_last()).after_event(events.last())
        }
    }

    /// The rejections that the events meet, in order.
    pub open spec fn rejections(self, events: Seq<EventView>) -> Seq<Rejection>
        decreases events.len(),
    {
        if events.len() == 0 {
            Seq::empty()
        } else {
            let before = self.rejections(events.drop_last());
            match self.after_events(events.drop_last()).event_result(events.last()) {
                Ok(()) => before,
                Err(e) => before.push(e),
            }
        }
    }

    /// Whether every balance on the way through the events can be held.
    pub open spec fn admits_all(self, events: Seq<EventView>) -> bool
        decreases events.len(),
    {
        events.len() == 0 || (self.admits_all(events.drop_last()) && self.after_events(
            events.drop_last(),
        ).admits(events.last()))
    }
}

/// Where no operation under dispute belongs to `client`, nothing is held for
/// it.
pub proof fn lemma_nothing_held(
    operations: Map<u32, OperationView>,
    disputes: Map<u32, DisputeView>,
    client: u16,
    bound: nat,
)
    requires
        forall|tx: u32| #[trigger] held_for(operations, disputes, client, tx) == 0,
    ensures
        held_below(operations, disputes, client, bound) == 0,
    decreases bound,
{
    if bound > 0 {
        lemma_nothing_held(operations, disputes, client, (bound - 1) as nat);
    }
}

/// Two ledgers that differ in what they hold for `client` on the one
/// operation `tx` at most, differ by that much in the sum.
pub proof fn lemma_held_differs_at(
    operations: Map<u32, OperationView>,
    disputes: Map<u32, DisputeView>,
    operations2: Map<u32, OperationView>,
    disputes2: Map<u32, DisputeView>,
    client: u16,
    tx: u32,
    bound: nat,
)
    requires
        bound <= tx_limit(),
        forall|other: u32|
            other != tx ==> #[trigger] held_for(operations, disputes, client, other) == held_for(
                operations2,
                disputes2,
                client,
                other,
            ),
    ensures
        held_below(operations2, disputes2, client, bound) == held_below(
            operations,
            disputes,
            client,
            bound,
        ) + if (tx as nat) < bound {
            held_for(operations2, disputes2, client, tx) - held_for(
                operations,
                disputes,
                client,
                tx,
            )
        } else {
            0
        },
    decreases bound,
{
    if bound > 0 {
        lemma_held_differs_at(
            operations,
            disputes,
            operations2,
            disputes2,
            client,
            tx,
            (bound - 1) as nat,
        );
    }
}

/// Where no operation moves a negative amount, nothing negative is held.
pub proof fn lemma_held_non_negative(
    operations: Map<u32, OperationView>,
    disputes: Map<u32, DisputeView>,
    client: u16,
    bound: nat,
)
    requires
        forall|tx: u32| #[trigger] operations.contains_key(tx) ==> operations[tx].amount >= 0,
    ensures
        held_below(operations, disputes, client, bound) >= 0,
    decreases bound,
{
    if bound > 0 {
        lemma_held_non_negative(operations, disputes, client, (bound - 1) as nat);
    }
}

impl LedgerView {
    /// In a well-formed ledger, the owner of an operation under dispute holds
    /// at least that operation's amount, and holds nothing negative.
    pub proof fn lemma_disputed_amount_is_held(self, tx: u32)
        requires
            self.well_formed(),
            self.disputes.contains_key(tx),
        ensures
            self.operations.contains_key(tx),
            self.accounts.contains_key(self.operations[tx].client),
            self.account(self.operations[tx].client).held >= self.operations[tx].amount >= 0,
    {
        let client = self.operations[tx].client;
        let closed = self.disputes.remove(tx);
        lemma_held_differs_at(
            self.operations,
            self.disputes,
            self.operations,
            closed,
            client,
            tx,
            tx_limit(),
        );
        lemma_held_non_negative(self.operations, closed, client, tx_limit());
    }

    /// An operation leaves a well-formed ledger well-formed.
    pub proof fn lemma_operation_keeps_well_formed(self, op: OperationView)
        requires
            self.well_formed(),
            op.amount >= 0,
        ensures
            self.after_operation(op).well_formed(),
    {
        let next = self.after_operation(op);
        if !self.operations.contains_key(op.tx) {
            assert forall|c: u16| #[trigger] next.accounts.contains_key(c) implies next.held_total(
                c,
            ) == self.held_total(c) by {
                lemma_held_differs_at(
                    self.operations,
                    self.disputes,
                    next.operations,
                    next.disputes,
                    c,
                    op.tx,
                    tx_limit(),
                );
            }
            if !self.accounts.contains_key(op.client) {
                lemma_nothing_held(self.operations, self.disputes, op.client, tx_limit());
            }
        }
    }

    /// A dispute transaction leaves a well-formed ledger well-formed.
    pub proof fn lemma_dispute_keeps_well_formed(self, d: DisputeView)
        requires
            self.well_formed(),
        ensures
            self.after_dispute(d).well_formed(),
    {
        let next = self.after_dispute(d);
        if self.dispute_result(d) is Ok {
            assert forall|c: u16| #[trigger] next.accounts.contains_key(c) implies next.held_total(
                c,
            ) == self.held_total(c) + held_for(next.operations, next.disputes, c, d.tx) - held_for(
                self.operations,
                self.disputes,
                c,
                d.tx,
            ) by {
                lemma_held_differs_at(
                    self.operations,
                    self.disputes,
                    next.operations,
                    next.disputes,
                    c,
                    d.tx,
                    tx_limit(),
                );
            }
        }
    }
}

} // verus!
