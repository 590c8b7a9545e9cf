//! From records as they are read to events in normal form.

use crate::amount::{is_decimal, normalized, Amount};
use crate::transaction::{
    views, DisputeTransaction, DisputeTransactionType, DisputeView, EventView,
    OperationTransaction, OperationTransactionType, OperationView, Transaction,
};
use vstd::prelude::*;

verus! {

/// The kind of a record, of either family.
#[derive(Copy, Clone, Debug, PartialEq, Eq, Structural)]
pub enum TransactionType {
    Deposit,
    Withdrawal,
    Dispute,
    Resolve,
    Chargeback,
}

/// A decimal number as it was read: the value `mantissa / 10^scale`.
#[derive(Copy, Clone, Debug, PartialEq, Eq, Structural)]
pub struct RawAmount {
    pub mantissa: i128,
    pub scale: u32,
}

/// A record as it was read. The amount is optional here, because rows may
/// come with or without the column; whether it is needed depends on the kind.
#[derive(Copy, Clone, Debug, PartialEq, Eq, Structural)]
pub struct RawTransaction {
    pub transaction_type: TransactionType,
    pub client: u16,
    pub tx: u32,
    pub amount: Option<RawAmount>,
}

/// Why a record is no event.
#[derive(Copy, Clone, Debug, PartialEq, Eq, Structural)]
pub enum MalformedRecord {
    /// A deposit or a withdrawal without an amount.
    MissingAmount,
    /// An amount that is no 96-bit decimal with at most 28 places.
    InvalidAmount,
    /// An amount below zero.
    NegativeAmount,
}

/// The amount of an operation in normal form: brought to four places, and
/// not negative.
pub open spec fn normal_amount(amount: Option<RawAmount>) -> Result<int, MalformedRecord> {
    match amount {
        None => Err(MalformedRecord::MissingAmount),
        Some(a) => if !is_decimal(a.mantissa as int, a.scale as nat) {
            Err(MalformedRecord::InvalidAmount)
        } else if normalized(a.mantissa as int, a.scale as nat) < 0 {
            Err(MalformedRecord::NegativeAmount)
        } else {
            Ok(normalized(a.mantissa as int, a.scale as nat))
        },
    }
}

/// The operation that a record of kind `kind` stands for.
pub open spec fn normal_operation(
    kind: OperationTransactionType,
    raw: RawTransaction,
) -> Result<EventView, MalformedRecord> {
    match normal_amount(raw.amount) {
        Ok(amount) => Ok(
            EventView::Operation(OperationView { kind, client: raw.client, tx: raw.tx, amount }),
        ),
        Err(e) => Err(e),
    }
}

/// The dispute transaction that a record of kind `kind` stands for. An
/// amount on such a record is ignored.
pub open spec fn normal_dispute(kind: DisputeTransactionType, raw: RawTransaction) -> EventView {
    EventView::Dispute(DisputeView { kind, client: raw.client, tx: raw.tx })
}

/// The event that a record stands for, or why it stands for none.
pub open spec fn normal_form(raw: RawTransaction) -> Result<EventView, MalformedRecord> {
    match raw.transaction_type {
        TransactionType::Deposit => normal_operation(OperationTransactionType::Deposit, raw),
        TransactionType::Withdrawal => normal_operation(OperationTransactionType::Withdrawal, raw),
        TransactionType::Dispute => Ok(normal_dispute(DisputeTransactionType::Dispute, raw)),
        TransactionType::Resolve => Ok(normal_dispute(DisputeTransactionType::Resolve, raw)),
        TransactionType::Chargeback => Ok(normal_dispute(DisputeTransactionType::Chargeback, raw)),
    }
}

/// The events that the records stand for, in order, without the malformed
/// ones.
pub open spec fn well_formed_events(records: Seq<RawTransaction>) -> Seq<EventView>
    decreases records.len(),
{
    if records.len() == 0 {
        Seq::empty()
    } else {
        let before = well_formed_events(records.drop_last());
        match normal_form(records.last()) {
            Ok(event) => before.push(event),
            Err(_) => before,
        }
    }
}

/// Why the malformed ones among the records are so, in order.
pub open spec fn malformed_records(records: Seq<RawTransaction>) -> Seq<MalformedRecord>
    decreases records.len(),
{
    if records.len() == 0 {
        Seq::empty()
    } else {
        let before = malformed_records(records.drop_last());
        match normal_form(records.last()) {
            Ok(_) => before,
            Err(e) => before.push(e),
        }
    }
}

/// The amount of an operation from what was read for it.
fn amount_from(amount: Option<RawAmount>) -> (r: Result<Amount, MalformedRecord>)
    ensures
        match r {
            Ok(a) => normal_amount(amount) == Ok::<int, MalformedRecord>(a@),
            Err(e) => normal_amount(amount) == Err::<int, MalformedRecord>(e),
        },
{
    match amount {
        None => Err(MalformedRecord::MissingAmount),
        Some(raw) => match Amount::from_decimal_parts(raw.mantissa, raw.scale) {
            None => Err(MalformedRecord::InvalidAmount),
            Some(a) => if a.units() < 0 {
                Err(MalformedRecord::NegativeAmount)
            } else {
                Ok(a)
            },
        },
    }
}

impl Transaction {
    /// Brings a record into normal form.
    ///
    /// A deposit or a withdrawal needs its amount, which is brought to four
    /// decimal places; a record without one, or with one that is negative or
    /// no decimal, is malformed. A dispute, resolve or chargeback takes client
    /// and `tx` as they are.
    pub fn try_from(transaction: RawTransaction) -> (r: Result<Transaction, MalformedRecord>)
        ensures
            match r {
                Ok(t) => normal_form(transaction) == Ok::<EventView, MalformedRecord>(t@),
                Err(e) => normal_form(transaction) == Err::<EventView, MalformedRecord>(e),
            },
    {
        let client = transaction.client;
        let tx = transaction.tx;
        let amount = transaction.amount;
        let res = match transaction.transaction_type {
            TransactionType::Deposit => Transaction::Operation(
                {
                    let amount = match amount_from(amount) {
                        Ok(a) => a,
                        Err(e) => {
                            return Err(e);
                        },
                    };
                    OperationTransaction::new(OperationTransactionType::Deposit, client, tx, amount)
                },
            ),
            TransactionType::Withdrawal => Transaction::Operation(
                {
                    let amount = match amount_from(amount) {
                        Ok(a) => a,
                        Err(e) => {
                            return Err(e);
                        },
                    };
                    OperationTransaction::new(
                        OperationTransactionType::Withdrawal,
                        client,
                        tx,
                        amount,
                    )
                },
            ),
            TransactionType::Dispute => Transaction::Dispute(
                DisputeTransaction::new(DisputeTransactionType::Dispute, client, tx),
            ),
            TransactionType::Resolve => Transaction::Dispute(
                DisputeTransaction::new(DisputeTransactionType::Resolve, client, tx),
            ),
            TransactionType::Chargeback => Transaction::Dispute(
                DisputeTransaction::new(DisputeTransactionType::Chargeback, client, tx),
            ),
        };
        Ok(res)
    }
}

/// The outcome of [`transcode`].
#[derive(Debug)]
pub struct Transcoded {
    /// The events, in the order of their records.
    pub events: Vec<Transaction>,
    /// Why records were dropped, in the order of those records.
    pub malformed: Vec<MalformedRecord>,
}

/// Produces the events that the records stand for. A malformed record is
/// dropped and noted, and does not stop those after it.
pub fn transcode(records: Vec<RawTransaction>) -> (out: Transcoded)
    ensures
        views(out.events@) == well_formed_events(records@),
        out.malformed@ == malformed_records(records@),
{
    let mut events: Vec<Transaction> = Vec::new();
    let mut malformed: Vec<MalformedRecord> = Vec::new();
    let mut i: usize = 0;
    proof {
        assert(records@.take(0).len() == 0);
        assert(views(events@) =~= Seq::<EventView>::empty());
    }
    while i < records.len()
        invariant
            i <= records.len(),
            views(events@) == well_formed_events(records@.take(i as int)),
            malformed@ == malformed_records(records@.take(i as int)),
        decreases records.len() - i,
    {
        let ghost before = events@;
        proof {
            let next = records@.take(i + 1);
            assert(next.drop_last() == records@.take(i as int));
            assert(next.last() == records[i as int]);
        }
        match Transaction::try_from(records[i]) {
            Ok(t) => {
                events.push(t);
                proof {
                    assert(views(events@) =~= views(before).push(t@));
                }
            },
            Err(e) => {
                malformed.push(e);
            },
        }
        i = i + 1;
    }
    proof {
        assert(records@.take(records.len() as int) == records@);
    }
    Transcoded { events, malformed }
}

} // verus!
