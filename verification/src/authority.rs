//! The ledger itself: it owns the accounts, the recorded operations and the
//! open disputes, and applies events to them one at a time.

use crate::client::Client;
use crate::error::{DisputeError, OperationError};
use crate::ledger::{LedgerView, Rejection};
use crate::transaction::{
    views, DisputeTransaction, DisputeTransactionType, OperationTransaction, Transaction,
};
use std::collections::{BTreeMap, HashMap};
use vstd::prelude::*;
use vstd::std_specs::btree::group_btree_axioms;
use vstd::std_specs::hash::group_hash_axioms;

verus! {

/// The authority over all accounts. Operations are recorded under their `tx`
/// and never leave; a dispute is recorded while it is open.
pub struct Authority {
    client_state: BTreeMap<u16, Client>,
    transaction_ledger: HashMap<u32, OperationTransaction>,
    dispute_ledger: HashMap<u32, DisputeTransaction>,
}

impl View for Authority {
    type V = LedgerView;

    closed spec fn view(&self) -> LedgerView {
        LedgerView {
            accounts: self.client_state@.map_values(|c: Client| c@),
            operations: self.transaction_ledger@.map_values(|t: OperationTransaction| t@),
            disputes: self.dispute_ledger@.map_values(|d: DisputeTransaction| d@),
        }
    }
}

/// What became of a run of events.
#[derive(Debug)]
pub struct StreamReport {
    /// How many events, from the first on, were offered to the ledger. Less
    /// than all of them only where the next one led to a balance that cannot
    /// be held; the run stops in front of it.
    pub applied: usize,
    /// Why events among those were turned down, in their order.
    pub rejections: Vec<Rejection>,
}

impl Default for Authority {
    /// A ledger without accounts, operations or disputes.
    fn default() -> (a: Self)
        ensures
            a.wf(),
            a@ == LedgerView::empty(),
    {
        let a = Authority {
            client_state: BTreeMap::new(),
            transaction_ledger: HashMap::new(),
            dispute_ledger: HashMap::new(),
        };
        assert(a@.accounts =~= Map::empty());
        assert(a@.operations =~= Map::empty());
        assert(a@.disputes =~= Map::empty());
        a
    }
}

impl Authority {
    /// Whether the ledger is one that events have built; see
    /// [`LedgerView::well_formed`].
    pub open spec fn wf(&self) -> bool {
        self@.well_formed()
    }

    /// Applies a deposit or a withdrawal.
    ///
    /// An operation whose `tx` is recorded already is turned down and changes
    /// nothing. Otherwise the client's account is opened if it had none, the
    /// operation is offered to it, and it is recorded only if the account took
    /// it.
    pub fn apply_operation(&mut self, t: OperationTransaction) -> (r: Result<(), OperationError>)
        requires
            old(self).wf(),
            old(self)@.admits_operation(t@),
        ensures
            final(self).wf(),
            r == old(self)@.operation_result(t@),
            final(self)@ == old(self)@.after_operation(t@),
    {
        broadcast use {group_hash_axioms, group_btree_axioms};

        let ghost before = self@;
        let tx = t.tx();
        let id = t.client();
        let amount = t.amount();
        if self.transaction_ledger.contains_key(&tx) {
            return Err(OperationError::TransactionExists(tx));
        }
        let mut client = match self.client_state.get(&id) {
            Some(c) => *c,
            None => Client::new(id),
        };
        let r = client.apply_operation_transaction(&t);
        self.client_state.insert(id, client);
        if r.is_ok() {
            self.transaction_ledger.insert(tx, t);
        }
        proof {
            before.lemma_operation_keeps_well_formed(t@);
            let after = before.after_operation(t@);
            assert(self@.accounts =~= after.accounts);
            assert(self@.operations =~= after.operations);
            assert(self@.disputes =~= after.disputes);
        }
        r
    }

    /// Applies a dispute transaction to the account that owns the operation
    /// it names, whoever issued it.
    ///
    /// A dispute may be opened by anyone, on any recorded operation that has
    /// none open, also on a locked account. It is resolved only by whoever
    /// opened it, and charged back only by the owner of the operation; each
    /// closes the dispute, and neither is possible on a locked account. A
    /// transaction that is turned down changes nothing.
    pub fn apply_dispute(&mut self, t: DisputeTransaction) -> (r: Result<(), DisputeError>)
        requires
            old(self).wf(),
            old(self)@.admits_dispute(t@),
        ensures
            final(self).wf(),
            r == old(self)@.dispute_result(t@),
            final(self)@ == old(self)@.after_dispute(t@),
    {
        broadcast use {group_hash_axioms, group_btree_axioms};

        let ghost before = self@;
        let tx = t.tx();
        let issuer = t.client();
        let disputed = match self.transaction_ledger.get(&tx) {
            Some(o) => *o,
            None => {
                return Err(DisputeError::TransactionDoesntExists(tx));
            },
        };
        let owner = disputed.client();
        let mut client = match self.client_state.get(&owner) {
            Some(c) => *c,
            None => Client::new(owner),
        };
        let r = match t.transaction_type() {
            DisputeTransactionType::Dispute => {
                if self.dispute_ledger.contains_key(&tx) {
                    return Err(DisputeError::DisputeExists(tx));
                }
                let r = client.apply_dispute(&disputed);
                self.client_state.insert(owner, client);
                self.dispute_ledger.insert(tx, t);
                r
            },
            DisputeTransactionType::Resolve => {
                let opened = match self.dispute_ledger.get(&tx) {
                    Some(d) => *d,
                    None => {
                        return Err(DisputeError::DisputeDoesntExists(tx));
                    },
                };
                if issuer != opened.client() {
                    return Err(DisputeError::DisputeConflict(tx, issuer));
                }
                proof {
                    before.lemma_disputed_amount_is_held(tx);
                }
                let r = client.apply_resolve(&disputed);
                if r.is_ok() {
                    self.client_state.insert(owner, client);
                    self.dispute_ledger.remove(&tx);
                }
                r
            },
            DisputeTransactionType::Chargeback => {
                if !self.dispute_ledger.contains_key(&tx) {
                    return Err(DisputeError::DisputeDoesntExists(tx));
                }
                if issuer != owner {
                    return Err(DisputeError::ChargebackConflict(tx, issuer, owner));
                }
                proof {
                    before.lemma_disputed_amount_is_held(tx);
                }
                let r = client.apply_chargeback(&disputed);
                if r.is_ok() {
                    self.client_state.insert(owner, client);
                    self.dispute_ledger.remove(&tx);
                }
                r
            },
        };
        proof {
            before.lemma_dispute_keeps_well_formed(t@);
            let after = before.after_dispute(t@);
            assert(self@.accounts =~= after.accounts);
            assert(self@.operations =~= after.operations);
            assert(self@.disputes =~= after.disputes);
        }
        r
    }

    /// Whether every balance that `t` leads to can be held. An event that is
    /// turned down moves no balance, so it always is admitted.
    pub fn admits(&self, t: &Transaction) -> (b: bool)
        ensures
            b == self@.admits(t@),
    {
        broadcast use {group_hash_axioms, group_btree_axioms};

        match t {
            Transaction::Operation(o) => {
                let client = match self.client_state.get(&o.client()) {
                    Some(c) => *c,
                    None => Client::new(o.client()),
                };
                proof {
                    client.lemma_fits();
                }
                self.transaction_ledger.contains_key(&o.tx()) || client.admits_operation(o)
            },
            Transaction::Dispute(d) => {
                let tx = d.tx();
                let disputed = match self.transaction_ledger.get(&tx) {
                    Some(o) => *o,
                    None => {
                        return true;
                    },
                };
                let owner = disputed.client();
                let client = match self.client_state.get(&owner) {
                    Some(c) => *c,
                    None => Client::new(owner),
                };
                proof {
                    client.lemma_fits();
                }
                match d.transaction_type() {
                    DisputeTransactionType::Dispute => {
                        self.dispute_ledger.contains_key(&tx) || client.admits_dispute(&disputed)
                    },
                    DisputeTransactionType::Resolve => {
                        match self.dispute_ledger.get(&tx) {
                            Some(opened) => d.client() != opened.client() || client.admits_resolve(
                                &disputed,
                            ),
                            None => true,
                        }
                    },
                    DisputeTransactionType::Chargeback => {
                        !self.dispute_ledger.contains_key(&tx) || d.client() != owner
                            || client.admits_chargeback(&disputed)
                    },
                }
            },
        }
    }

    /// Applies one event, of either family.
    pub fn apply(&mut self, t: Transaction) -> (r: Result<(), Rejection>)
        requires
            old(self).wf(),
            old(self)@.admits(t@),
        ensures
            final(self).wf(),
            r == old(self)@.event_result(t@),
            final(self)@ == old(self)@.after_event(t@),
    {
        match t {
            Transaction::Operation(o) => match self.apply_operation(o) {
                Ok(()) => Ok(()),
                Err(e) => Err(Rejection::Operation(e)),
            },
            Transaction::Dispute(d) => match self.apply_dispute(d) {
                Ok(()) => Ok(()),
                Err(e) => Err(Rejection::Dispute(e)),
            },
        }
    }

    /// Applies the events in their order. An event that is turned down is
    /// noted in the report and does not stop those after it.
    ///
    /// The run ends early only in front of an event that leads to a balance
    /// beyond what an [`crate::Amount`] holds.
    pub fn apply_iter(&mut self, events: Vec<Transaction>) -> (report: StreamReport)
        requires
            old(self).wf(),
        ensures
            final(self).wf(),
            report.applied <= events.len(),
            old(self)@.admits_all(views(events@).take(report.applied as int)),
            report.applied < events.len() ==> !final(self)@.admits(events[report.applied as int]@),
            final(self)@ == old(self)@.after_events(views(events@).take(report.applied as int)),
            report.rejections@ == old(self)@.rejections(
                views(events@).take(report.applied as int),
            ),
    {
        let ghost before = self@;
        let ghost all = views(events@);
        let mut rejections: Vec<Rejection> = Vec::new();
        let mut applied: usize = 0;
        let mut halted = false;
        proof {
            assert(all.take(0).len() == 0);
        }
        while applied < events.len() && !halted
            invariant
                self.wf(),
                applied <= events.len(),
                all == views(events@),
                before.admits_all(all.take(applied as int)),
                self@ == before.after_events(all.take(applied as int)),
                rejections@ == before.rejections(all.take(applied as int)),
                halted ==> applied < events.len() && !self@.admits(events[applied as int]@),
            decreases events.len() - applied, if halted { 0int } else { 1int },
        {
            let t = events[applied];
            if self.admits(&t) {
                proof {
                    let next = all.take(applied + 1);
                    assert(next.drop_last() == all.take(applied as int));
                    assert(next.last() == t@);
                }
                match self.apply(t) {
                    Ok(()) => {},
                    Err(e) => {
                        rejections.push(e);
                    },
                }
                applied = applied + 1;
            } else {
                halted = true;
            }
        }
        StreamReport { applied, rejections }
    }

    /// The ledger that the events build from nothing, with the report of the
    /// run.
    pub fn from_iter(events: Vec<Transaction>) -> (r: (Self, StreamReport))
        ensures
            r.0.wf(),
            r.1.applied <= events.len(),
            LedgerView::empty().admits_all(views(events@).take(r.1.applied as int)),
            r.1.applied < events.len() ==> !r.0@.admits(events[r.1.applied as int]@),
            r.0@ == LedgerView::empty().after_events(views(events@).take(r.1.applied as int)),
            r.1.rejections@ == LedgerView::empty().rejections(
                views(events@).take(r.1.applied as int),
            ),
    {
        let mut a = Authority::default();
        let report = a.apply_iter(events);
        (a, report)
    }

    /// The accounts, in ascending order of their client id.
    pub fn iter_clients(&self) -> (clients: Vec<Client>)
        requires
            self.wf(),
        ensures
            forall|i: int, j: int|
                0 <= i < j < clients.len() ==> clients[i]@.id < clients[j]@.id,
            forall|i: int|
                0 <= i < clients.len() ==> self@.accounts.contains_key(#[trigger] clients[i]@.id)
                    && self@.accounts[clients[i]@.id] == clients[i]@,
            forall|c: u16| #[trigger]
                self@.accounts.contains_key(c) ==> exists|i: int|
                    0 <= i < clients.len() && clients[i]@.id == c,
            forall|i: int| 0 <= i < clients.len() ==> (#[trigger] clients[i]@).balanced(),
    {
        broadcast use group_btree_axioms;

        let mut clients: Vec<Client> = Vec::new();
        let mut next: u32 = 0;
        while next <= 0xFFFF
            invariant
                self.wf(),
                next <= 0x1_0000,
                forall|i: int| 0 <= i < clients.len() ==> (#[trigger] clients[i]@).balanced(),
                forall|i: int, j: int|
                    0 <= i < j < clients.len() ==> clients[i]@.id < clients[j]@.id,
                forall|i: int|
                    0 <= i < clients.len() ==> (#[trigger] clients[i]@.id) < next
                        && self@.accounts.contains_key(clients[i]@.id)
                        && self@.accounts[clients[i]@.id] == clients[i]@,
                forall|c: u16| #[trigger]
                    self@.accounts.contains_key(c) && c < next ==> exists|i: int|
                        0 <= i < clients.len() && clients[i]@.id == c,
            decreases 0x1_0000 - next,
        {
            let id = next as u16;
            match self.client_state.get(&id) {
                Some(c) => {
                    let ghost earlier = clients@;
                    clients.push(*c);
                    proof {
                        assert(self@.accounts.contains_key(id));
                        assert(self@.accounts[id] == c@);
                        assert forall|k: u16| #[trigger]
                            self@.accounts.contains_key(k) && k < next + 1 implies exists|i: int|
                            0 <= i < clients.len() && clients[i]@.id == k by {
                            if k < next {
                                let i = choose|i: int|
                                    0 <= i < earlier.len() && earlier[i]@.id == k;
                                assert(clients[i]@.id == k);
                            } else {
                                assert(clients[clients.len() - 1]@.id == k);
                            }
                        }
                    }
                },
                None => {},
            }
            next = next + 1;
        }
        clients
    }
}

} // verus!
