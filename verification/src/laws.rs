//! What holds of every ledger, whatever events it is given.
//!
//! The executable ledger moves exactly as [`LedgerView`] does, so what is
//! proved here of the one holds of the other.

use crate::error::{DisputeError, OperationError};
use crate::ledger::LedgerView;
use crate::transaction::{
    DisputeTransactionType, DisputeView, EventView, OperationTransactionType, OperationView,
};
use vstd::prelude::*;

verus! {

/// Whether no operation among the events moves a negative amount.
pub open spec fn amounts_non_negative(events: Seq<EventView>) -> bool {
    forall|i: int|
        0 <= i < events.len() ==> (#[trigger] events[i] matches EventView::Operation(op)
            ==> op.amount >= 0)
}

/// The client whose account the event is about: for an operation its own,
/// for a dispute transaction the owner of the operation it names, if that is
/// recorded.
pub open spec fn concerns(ledger: LedgerView, event: EventView, client: u16) -> bool {
    match event {
        EventView::Operation(op) => op.client == client,
        EventView::Dispute(d) => ledger.operations.contains_key(d.tx)
            && ledger.operations[d.tx].client == client,
    }
}

/// The empty ledger is well-formed.
pub proof fn law_empty_is_well_formed()
    ensures
        LedgerView::empty().well_formed(),
{
}

/// Any event leaves a well-formed ledger well-formed.
pub proof fn law_event_keeps_well_formed(ledger: LedgerView, event: EventView)
    requires
        ledger.well_formed(),
        event matches EventView::Operation(op) ==> op.amount >= 0,
    ensures
        ledger.after_event(event).well_formed(),
{
    match event {
        EventView::Operation(op) => ledger.lemma_operation_keeps_well_formed(op),
        EventView::Dispute(d) => ledger.lemma_dispute_keeps_well_formed(d),
    }
}

/// Every account is balanced at every point of every run: after any events,
/// applied to a well-formed ledger, the ledger is well-formed again, and so
/// the total of each account is exactly what it has available plus what is
/// held.
pub proof fn law_accounts_stay_balanced(ledger: LedgerView, events: Seq<EventView>, client: u16)
    requires
        ledger.well_formed(),
        amounts_non_negative(events),
    ensures
        ledger.after_events(events).well_formed(),
        ledger.after_events(events).account(client).balanced(),
        ledger.after_events(events).account(client).total == ledger.after_events(events).account(
            client,
        ).available + ledger.after_events(events).account(client).held,
    decreases events.len(),
{
    if events.len() > 0 {
        let before = events.drop_last();
        assert(amounts_non_negative(before)) by {
            assert forall|i: int| 0 <= i < before.len() implies (#[trigger] before[i] matches EventView::Operation(
                op,
            ) ==> op.amount >= 0) by {
                assert(before[i] == events[i]);
            }
        }
        law_accounts_stay_balanced(ledger, before, client);
        assert(events.last() == events[events.len() - 1]);
        law_event_keeps_well_formed(ledger.after_events(before), events.last());
    }
}

/// A locked account turns down every deposit and withdrawal, and every
/// resolve and chargeback on one of its operations; none of them changes the
/// ledger.
pub proof fn law_locked_account_rejects(ledger: LedgerView, event: EventView, client: u16)
    requires
        ledger.accounts.contains_key(client),
        ledger.accounts[client].locked,
        concerns(ledger, event, client),
        !(event matches EventView::Dispute(d) && d.kind == DisputeTransactionType::Dispute),
    ensures
        ledger.event_result(event) is Err,
        ledger.after_event(event) == ledger,
{
    match event {
        EventView::Operation(op) => {
            assert(ledger.after_operation(op).accounts =~= ledger.accounts);
        },
        EventView::Dispute(d) => {},
    }
}

/// Only a dispute can still be opened on a locked account: whether a recorded
/// operation without an open dispute can be disputed does not depend on the
/// lock, nor on who asks.
pub proof fn law_dispute_opens_on_any_account(ledger: LedgerView, tx: u32, issuer: u16)
    requires
        ledger.operations.contains_key(tx),
        !ledger.disputes.contains_key(tx),
    ensures
        ({
            let open = DisputeView { kind: DisputeTransactionType::Dispute, client: issuer, tx };
            let op = ledger.operations[tx];
            &&& ledger.dispute_result(open) is Ok
            &&& ledger.after_dispute(open).account(op.client) == ledger.account(
                op.client,
            ).after_dispute(op)
            &&& ledger.after_dispute(open).disputes.contains_key(tx)
        }),
{
}

/// A locked account stays locked, whatever comes after.
pub proof fn law_locked_for_ever(ledger: LedgerView, events: Seq<EventView>, client: u16)
    requires
        ledger.accounts.contains_key(client),
        ledger.accounts[client].locked,
    ensures
        ledger.after_events(events).accounts.contains_key(client),
        ledger.after_events(events).accounts[client].locked,
    decreases events.len(),
{
    if events.len() > 0 {
        law_locked_for_ever(ledger, events.drop_last(), client);
    }
}

/// Once an account is locked, no deposit, withdrawal, resolve or chargeback
/// on it succeeds any more, whatever events came in between.
pub proof fn law_locked_account_rejects_ever_after(
    ledger: LedgerView,
    between: Seq<EventView>,
    event: EventView,
    client: u16,
)
    requires
        ledger.accounts.contains_key(client),
        ledger.accounts[client].locked,
        concerns(ledger.after_events(between), event, client),
        !(event matches EventView::Dispute(d) && d.kind == DisputeTransactionType::Dispute),
    ensures
        ledger.after_events(between).event_result(event) is Err,
        ledger.after_events(between).after_event(event) == ledger.after_events(between),
{
    law_locked_for_ever(ledger, between, client);
    law_locked_account_rejects(ledger.after_events(between), event, client);
}

/// An operation that was recorded stays recorded as it is, whatever comes
/// after.
pub proof fn law_recorded_for_ever(ledger: LedgerView, events: Seq<EventView>, tx: u32)
    requires
        ledger.operations.contains_key(tx),
    ensures
        ledger.after_events(events).operations.contains_key(tx),
        ledger.after_events(events).operations[tx] == ledger.operations[tx],
    decreases events.len(),
{
    if events.len() > 0 {
        law_recorded_for_ever(ledger, events.drop_last(), tx);
    }
}

/// Of two operations with the same `tx`, the second is turned down as a
/// duplicate once the first was applied, whatever its kind, client or
/// amount, whatever happened in between, and it changes nothing.
pub proof fn law_duplicate_is_rejected(
    ledger: LedgerView,
    first: OperationView,
    between: Seq<EventView>,
    second: OperationView,
)
    requires
        first.tx == second.tx,
        ledger.operation_result(first) is Ok || ledger.operations.contains_key(first.tx),
    ensures
        ({
            let later = ledger.after_operation(first).after_events(between);
            &&& later.operation_result(second) == Err::<(), OperationError>(
                OperationError::TransactionExists(second.tx),
            )
            &&& later.after_operation(second) == later
        }),
{
    law_recorded_for_ever(ledger.after_operation(first), between, first.tx);
}

/// A resolve by anyone but the client who opened the dispute is turned
/// down, and so is a chargeback by anyone but the owner of the operation.
/// Neither changes the ledger.
pub proof fn law_wrong_issuer_is_rejected(ledger: LedgerView, d: DisputeView)
    requires
        ledger.operations.contains_key(d.tx),
        d.kind == DisputeTransactionType::Resolve && (ledger.disputes.contains_key(d.tx)
            ==> d.client != ledger.disputes[d.tx].client) || d.kind
            == DisputeTransactionType::Chargeback && d.client != ledger.operations[d.tx].client,
    ensures
        ledger.dispute_result(d) is Err,
        ledger.after_dispute(d) == ledger,
        ledger.disputes.contains_key(d.tx) && d.kind == DisputeTransactionType::Resolve
            ==> ledger.dispute_result(d) == Err::<(), DisputeError>(
            DisputeError::DisputeConflict(d.tx, d.client),
        ),
        ledger.disputes.contains_key(d.tx) && d.kind == DisputeTransactionType::Chargeback
            ==> ledger.dispute_result(d) == Err::<(), DisputeError>(
            DisputeError::ChargebackConflict(d.tx, d.client, ledger.operations[d.tx].client),
        ),
{
}

/// A dispute transaction that is turned down, for whatever reason, changes
/// nothing; neither does an operation that is turned down as a duplicate, and
/// one that the account turns down changes no balance.
pub proof fn law_rejection_changes_no_balance(ledger: LedgerView, event: EventView, client: u16)
    requires
        ledger.event_result(event) is Err,
    ensures
        event is Dispute ==> ledger.after_event(event) == ledger,
        ledger.after_event(event).account(client) == ledger.account(client),
        ledger.after_event(event).operations == ledger.operations,
        ledger.after_event(event).disputes == ledger.disputes,
{
}

/// Opening a dispute on an operation and resolving it, by the same issuer,
/// brings the ledger back to where it was: available, held and total of the
/// account are exactly what they were before the dispute.
pub proof fn law_resolve_undoes_dispute(ledger: LedgerView, tx: u32, issuer: u16)
    requires
        ledger.well_formed(),
        ledger.operations.contains_key(tx),
        !ledger.disputes.contains_key(tx),
        !ledger.account(ledger.operations[tx].client).locked,
    ensures
        ({
            let open = DisputeView { kind: DisputeTransactionType::Dispute, client: issuer, tx };
            let resolve = DisputeView { kind: DisputeTransactionType::Resolve, client: issuer, tx };
            let disputed = ledger.after_dispute(open);
            &&& ledger.dispute_result(open) is Ok
            &&& disputed.dispute_result(resolve) is Ok
            &&& disputed.after_dispute(resolve) == ledger
        }),
{
    let open = DisputeView { kind: DisputeTransactionType::Dispute, client: issuer, tx };
    let resolve = DisputeView { kind: DisputeTransactionType::Resolve, client: issuer, tx };
    let disputed = ledger.after_dispute(open);
    let back = disputed.after_dispute(resolve);
    assert(back.accounts =~= ledger.accounts);
    assert(back.disputes =~= ledger.disputes);
}

/// A deposit, then a dispute on it, then its resolve by the same issuer:
/// the account ends with exactly the available, held and total that it had
/// right after the deposit.
pub proof fn law_deposit_dispute_resolve_round_trip(
    ledger: LedgerView,
    deposit: OperationView,
    issuer: u16,
)
    requires
        ledger.well_formed(),
        deposit.kind == OperationTransactionType::Deposit,
        deposit.amount >= 0,
        ledger.operation_result(deposit) is Ok,
    ensures
        ({
            let tx = deposit.tx;
            let open = DisputeView { kind: DisputeTransactionType::Dispute, client: issuer, tx };
            let resolve = DisputeView { kind: DisputeTransactionType::Resolve, client: issuer, tx };
            let deposited = ledger.after_operation(deposit);
            let disputed = deposited.after_dispute(open);
            let resolved = disputed.after_dispute(resolve);
            &&& deposited.dispute_result(open) is Ok
            &&& disputed.account(deposit.client).held == deposited.account(deposit.client).held
                + deposit.amount
            &&& disputed.account(deposit.client).available == deposited.account(
                deposit.client,
            ).available - deposit.amount
            &&& disputed.account(deposit.client).total == deposited.account(deposit.client).total
            &&& disputed.dispute_result(resolve) is Ok
            &&& resolved.account(deposit.client) == deposited.account(deposit.client)
            &&& resolved == deposited
        }),
{
    ledger.lemma_operation_keeps_well_formed(deposit);
    law_resolve_undoes_dispute(ledger.after_operation(deposit), deposit.tx, issuer);
}

} // verus!
