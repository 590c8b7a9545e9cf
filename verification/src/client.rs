//! One client's account and the transitions it can take.

use crate::amount::{amount_of, representable, Amount, UNITS_PER_WHOLE};
use crate::error::{DisputeError, OperationError};
use crate::transaction::{OperationTransaction, OperationTransactionType, OperationView};
use vstd::prelude::*;

verus! {

/// An account as numbers: balances are integers, in ten-thousandths.
pub struct AccountView {
    pub id: u16,
    pub available: int,
    pub held: int,
    pub total: int,
    pub locked: bool,
}

impl AccountView {
    /// The account a client has before anything happened to it.
    pub open spec fn opened(id: u16) -> AccountView {
        AccountView { id, available: 0, held: 0, total: 0, locked: false }
    }

    /// The identity every account keeps: the total is what is available plus
    /// what is held.
    pub open spec fn balanced(self) -> bool {
        self.total == self.available + self.held
    }

    /// Whether a [`Client`] can hold these balances.
    pub open spec fn fits(self) -> bool {
        representable(self.available) && representable(self.held) && representable(self.total)
    }

    /// Whether the account takes the operation `op`, and why not.
    pub open spec fn operation_result(self, op: OperationView) -> Result<(), OperationError> {
        if self.locked {
            Err(OperationError::Locked(self.id))
        } else if op.kind == OperationTransactionType::Withdrawal && self.available < op.amount {
            Err(
                OperationError::WithdrawExceeded(
                    op.tx,
                    amount_of(op.amount),
                    amount_of(self.available),
                ),
            )
        } else {
            Ok(())
        }
    }

    /// The account after `op` was offered to it: a deposit adds the amount to
    /// what is available and to the total, a withdrawal takes it from both, and
    /// an operation that is turned down changes nothing.
    pub open spec fn after_operation(self, op: OperationView) -> AccountView {
        if self.operation_result(op) is Err {
            self
        } else {
            match op.kind {
                OperationTransactionType::Deposit => AccountView {
                    available: self.available + op.amount,
                    total: self.total + op.amount,
                    ..self
                },
                OperationTransactionType::Withdrawal => AccountView {
                    available: self.available - op.amount,
                    total: self.total - op.amount,
                    ..self
                },
            }
        }
    }

    /// The account after a dispute on its operation `op` was opened: the
    /// amount is held; for a deposit it is no longer available, for a
    /// withdrawal it is back in the total. A locked account takes this too.
    pub open spec fn after_dispute(self, op: OperationView) -> AccountView {
        match op.kind {
            OperationTransactionType::Deposit => AccountView {
                held: self.held + op.amount,
                available: self.available - op.amount,
                ..self
            },
            OperationTransactionType::Withdrawal => AccountView {
                held: self.held + op.amount,
                total: self.total + op.amount,
                ..self
            },
        }
    }

    /// Whether the account lets a dispute be closed, by resolve or by
    /// chargeback: a locked account does not.
    pub open spec fn closing_result(self) -> Result<(), DisputeError> {
        if self.locked {
            Err(DisputeError::Locked(self.id))
        } else {
            Ok(())
        }
    }

    /// The account after the dispute on its operation `op` was resolved: the
    /// amount is released; for a deposit it is available again, for a
    /// withdrawal it leaves the total again. A locked account is unchanged.
    pub open spec fn after_resolve(self, op: OperationView) -> AccountView {
        if self.locked {
            self
        } else {
            match op.kind {
                OperationTransactionType::Deposit => AccountView {
                    held: self.held - op.amount,
                    available: self.available + op.amount,
                    ..self
                },
                OperationTransactionType::Withdrawal => AccountView {
                    held: self.held - op.amount,
                    total: self.total - op.amount,
                    ..self
                },
            }
        }
    }

    /// The account after the dispute on its operation `op` ended in a
    /// chargeback: the amount is released; a deposit leaves the total, a
    /// withdrawal becomes available again; the account is locked. An account
    /// that was locked already is unchanged.
    pub open spec fn after_chargeback(self, op: OperationView) -> AccountView {
        if self.locked {
            self
        } else {
            match op.kind {
                OperationTransactionType::Deposit => AccountView {
                    held: self.held - op.amount,
                    total: self.total - op.amount,
                    locked: true,
                    ..self
                },
                OperationTransactionType::Withdrawal => AccountView {
                    held: self.held - op.amount,
                    available: self.available + op.amount,
                    locked: true,
                    ..self
                },
            }
        }
    }
}

/// A client's account: what is available, what is held under dispute, their
/// total, and whether the account is locked.
#[derive(Copy, Clone, Debug, PartialEq, Eq, Structural)]
pub struct Client {
    id: u16,
    available: Amount,
    held: Amount,
    total: Amount,
    locked: bool,
}

impl View for Client {
    type V = AccountView;

    closed spec fn view(&self) -> AccountView {
        AccountView {
            id: self.id,
            available: self.available@,
            held: self.held@,
            total: self.total@,
            locked: self.locked,
        }
    }
}

impl Client {
    /// An empty, unlocked account for the client `id`.
    pub fn new(id: u16) -> (c: Self)
        ensures
            c@ == AccountView::opened(id),
    {
        Self {
            id,
            available: Amount::zero(),
            held: Amount::zero(),
            total: Amount::zero(),
            locked: false,
        }
    }

    /// An account with the given balances in whole units, as one writes it
    /// down to compare against.
    pub fn test(id: u16, available: i64, held: i64, total: i64, locked: bool) -> (c: Self)
        ensures
            c@ == (AccountView {
                id,
                available: available * UNITS_PER_WHOLE,
                held: held * UNITS_PER_WHOLE,
                total: total * UNITS_PER_WHOLE,
                locked,
            }),
    {
        Self {
            id,
            available: Amount::from_whole(available),
            held: Amount::from_whole(held),
            total: Amount::from_whole(total),
            locked,
        }
    }

    pub fn id(&self) -> (id: u16)
        ensures
            id == self@.id,
    {
        self.id
    }

    pub fn available(&self) -> (a: Amount)
        ensures
            a@ == self@.available,
    {
        self.available
    }

    pub fn held(&self) -> (a: Amount)
        ensures
            a@ == self@.held,
    {
        self.held
    }

    pub fn total(&self) -> (a: Amount)
        ensures
            a@ == self@.total,
    {
        self.total
    }

    pub fn locked(&self) -> (locked: bool)
        ensures
            locked == self@.locked,
    {
        self.locked
    }

    /// The balances of an account can be held, as it has them.
    pub proof fn lemma_fits(self)
        ensures
            self@.fits(),
    {
    }

    /// Whether the account can hold the balances that `t` leads to.
    pub fn admits_operation(&self, t: &OperationTransaction) -> (b: bool)
        ensures
            b == self@.after_operation(t@).fits(),
    {
        let amount = t.amount().units();
        if self.locked {
            return true;
        }
        match t.transaction_type() {
            OperationTransactionType::Deposit => {
                self.available.units().checked_add(amount).is_some()
                    && self.total.units().checked_add(amount).is_some()
            },
            OperationTransactionType::Withdrawal => {
                self.available.units() < amount || (self.available.units().checked_sub(
                    amount,
                ).is_some() && self.total.units().checked_sub(amount).is_some())
            },
        }
    }

    /// Whether the account can hold the balances that a dispute on `t` leads
    /// to.
    pub fn admits_dispute(&self, t: &OperationTransaction) -> (b: bool)
        ensures
            b == self@.after_dispute(t@).fits(),
    {
        let amount = t.amount().units();
        let held = self.held.units().checked_add(amount).is_some();
        match t.transaction_type() {
            OperationTransactionType::Deposit => {
                held && self.available.units().checked_sub(amount).is_some()
            },
            OperationTransactionType::Withdrawal => {
                held && self.total.units().checked_add(amount).is_some()
            },
        }
    }

    /// Whether the account can hold the balances that resolving the dispute
    /// on `t` leads to.
    pub fn admits_resolve(&self, t: &OperationTransaction) -> (b: bool)
        ensures
            b == self@.after_resolve(t@).fits(),
    {
        let amount = t.amount().units();
        if self.locked {
            return true;
        }
        let held = self.held.units().checked_sub(amount).is_some();
        match t.transaction_type() {
            OperationTransactionType::Deposit => {
                held && self.available.units().checked_add(amount).is_some()
            },
            OperationTransactionType::Withdrawal => {
                held && self.total.units().checked_sub(amount).is_some()
            },
        }
    }

    /// Whether the account can hold the balances that charging back `t`
    /// leads to.
    pub fn admits_chargeback(&self, t: &OperationTransaction) -> (b: bool)
        ensures
            b == self@.after_chargeback(t@).fits(),
    {
        let amount = t.amount().units();
        if self.locked {
            return true;
        }
        let held = self.held.units().checked_sub(amount).is_some();
        match t.transaction_type() {
            OperationTransactionType::Deposit => {
                held && self.total.units().checked_sub(amount).is_some()
            },
            OperationTransactionType::Withdrawal => {
                held && self.available.units().checked_add(amount).is_some()
            },
        }
    }

    /// Applies a deposit or a withdrawal to the account.
    pub fn apply_operation_transaction(&mut self, t: &OperationTransaction) -> (r: Result<
        (),
        OperationError,
    >)
        requires
            old(self)@.after_operation(t@).fits(),
        ensures
            r == old(self)@.operation_result(t@),
            final(self)@ == old(self)@.after_operation(t@),
            old(self)@.balanced() ==> final(self)@.balanced(),
    {
        if self.locked {
            return Err(OperationError::Locked(self.id));
        }
        let amount = t.amount();
        match t.transaction_type() {
            OperationTransactionType::Deposit => {
                self.available = Amount::from_units(self.available.units() + amount.units());
                self.total = Amount::from_units(self.total.units() + amount.units());
            },
            OperationTransactionType::Withdrawal => {
                if self.available.units() < amount.units() {
                    return Err(OperationError::WithdrawExceeded(t.tx(), amount, self.available));
                }
                self.available = Amount::from_units(self.available.units() - amount.units());
                self.total = Amount::from_units(self.total.units() - amount.units());
            },
        }
        Ok(())
    }

    /// Opens a dispute on `t`, an operation of this account. Never fails, and
    /// a locked account takes it as well.
    pub fn apply_dispute(&mut self, t: &OperationTransaction) -> (r: Result<(), DisputeError>)
        requires
            old(self)@.after_dispute(t@).fits(),
        ensures
            r == Ok::<(), DisputeError>(()),
            final(self)@ == old(self)@.after_dispute(t@),
            old(self)@.balanced() ==> final(self)@.balanced(),
    {
        let amount = t.amount();
        self.held = Amount::from_units(self.held.units() + amount.units());
        match t.transaction_type() {
            OperationTransactionType::Deposit => {
                self.available = Amount::from_units(self.available.units() - amount.units());
            },
            OperationTransactionType::Withdrawal => {
                self.total = Amount::from_units(self.total.units() + amount.units());
            },
        }
        Ok(())
    }

    /// Resolves the dispute on `t`, an operation of this account. The caller
    /// owes that the amount is held (on an unlocked account).
    pub fn apply_resolve(&mut self, t: &OperationTransaction) -> (r: Result<(), DisputeError>)
        requires
            !old(self)@.locked ==> old(self)@.held >= t@.amount,
            old(self)@.after_resolve(t@).fits(),
        ensures
            r == old(self)@.closing_result(),
            final(self)@ == old(self)@.after_resolve(t@),
            old(self)@.balanced() ==> final(self)@.balanced(),
    {
        if self.locked {
            return Err(DisputeError::Locked(self.id));
        }
        let amount = t.amount();
        self.held = Amount::from_units(self.held.units() - amount.units());
        match t.transaction_type() {
            OperationTransactionType::Deposit => {
                self.available = Amount::from_units(self.available.units() + amount.units());
            },
            OperationTransactionType::Withdrawal => {
                self.total = Amount::from_units(self.total.units() - amount.units());
            },
        }
        Ok(())
    }

    /// Charges back `t`, an operation of this account under dispute, and
    /// locks the account. The caller owes that the amount is held (on an
    /// unlocked account).
    pub fn apply_chargeback(&mut self, t: &OperationTransaction) -> (r: Result<(), DisputeError>)
        requires
            !old(self)@.locked ==> old(self)@.held >= t@.amount,
            old(self)@.after_chargeback(t@).fits(),
        ensures
            r == old(self)@.closing_result(),
            final(self)@ == old(self)@.after_chargeback(t@),
            old(self)@.balanced() ==> final(self)@.balanced(),
    {
        if self.locked {
            return Err(DisputeError::Locked(self.id));
        }
        let amount = t.amount();
        self.held = Amount::from_units(self.held.units() - amount.units());
        match t.transaction_type() {
            OperationTransactionType::Deposit => {
                self.total = Amount::from_units(self.total.units() - amount.units());
            },
            OperationTransactionType::Withdrawal => {
                self.available = Amount::from_units(self.available.units() + amount.units());
            },
        }
        self.locked = true;
        Ok(())
    }
}

} // verus!
