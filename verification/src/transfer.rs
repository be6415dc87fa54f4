//! The transfer engine: validation of a staged transfer and its commit, which
//! writes the record and both balances as one step or not at all.

use crate::keypad::entered_amount;
use crate::keypad::AmountEntry;
use crate::ledger::Ledger;
use crate::model::after_transfer;
use crate::model::balance_of;
use crate::model::has_account;
use crate::model::lemma_pair_le_total;
use crate::model::LedgerView;
use crate::model::RecordView;
use crate::session::SessionContext;
use crate::session::SessionView;
use crate::store::StoreError;
use vstd::prelude::*;

verus! {

/// Why a transfer did not happen.
#[derive(Debug, Clone, Copy, PartialEq, Eq, Structural)]
pub enum TransferError {
    /// No transfer is staged: the receiver or the amount is missing.
    NothingStaged,
    /// The receiver is not an account.
    UnknownReceiver,
    /// The receiver is the sender.
    SelfTransfer,
    /// The amount is zero or negative.
    InvalidAmount,
    /// The sender's balance is lower than the amount.
    InsufficientFunds,
    /// The store failed during the commit. The ledger is as it was.
    TransferFailed,
}

/// What validation says of a transfer. The checks run in this order, and the
/// first that fails names the rejection. A sender that is no account has
/// nothing to send.
pub open spec fn transfer_verdict(
    v: LedgerView,
    sender: Seq<char>,
    receiver: Seq<char>,
    amount: int,
) -> Result<(), TransferError> {
    if !has_account(v.accounts, receiver) {
        Err(TransferError::UnknownReceiver)
    } else if receiver == sender {
        Err(TransferError::SelfTransfer)
    } else if amount <= 0 {
        Err(TransferError::InvalidAmount)
    } else if balance_of(v.accounts, sender) - amount < 0 {
        Err(TransferError::InsufficientFunds)
    } else {
        Ok(())
    }
}

/// What validation says of the transfer staged in `session`, with `sender` as
/// the sending account.
pub open spec fn staged_verdict(v: LedgerView, session: SessionView, sender: Seq<char>) -> Result<
    (),
    TransferError,
> {
    if session.receiver_id is None || session.t_amount is None {
        Err(TransferError::NothingStaged)
    } else {
        transfer_verdict(v, sender, session.receiver_id->0, session.t_amount->0)
    }
}

/// What validation says of a transfer whose amount stands on the keypad. A
/// display that stands for no amount is rejected as an invalid amount,
/// whoever the receiver is; any other is validated as the amount it stands
/// for.
pub open spec fn entered_verdict(
    v: LedgerView,
    sender: Seq<char>,
    receiver: Seq<char>,
    display: Seq<char>,
) -> Result<(), TransferError> {
    match entered_amount(display) {
        None => Err(TransferError::InvalidAmount),
        Some(amount) => transfer_verdict(v, sender, receiver, amount),
    }
}

/// The session after a commit: the signed-in account stays, nothing is staged.
pub open spec fn cleared(session: SessionView) -> SessionView {
    SessionView { user_id: session.user_id, receiver_id: None, t_amount: None }
}

/// What a commit is going to write.
#[derive(Debug)]
pub struct TransferPlan {
    /// The record to append to the history.
    pub record: crate::ledger::TransactionRecord,
    /// The sender's balance after the move.
    pub sender_balance: i64,
    /// The receiver's balance after the move.
    pub receiver_balance: i64,
    /// The sender's balance before the move. A store that is shared writes
    /// the new balance only where it still finds this one.
    pub sender_before: i64,
    /// The receiver's balance before the move.
    pub receiver_before: i64,
}

/// The mathematical content of a `TransferPlan`.
pub struct PlanView {
    pub record: RecordView,
    pub sender_balance: int,
    pub receiver_balance: int,
    pub sender_before: int,
    pub receiver_before: int,
}

impl View for TransferPlan {
    type V = PlanView;

    open spec fn view(&self) -> PlanView {
        PlanView {
            record: self.record@,
            sender_balance: self.sender_balance as int,
            receiver_balance: self.receiver_balance as int,
            sender_before: self.sender_before as int,
            receiver_before: self.receiver_before as int,
        }
    }
}

/// What a transfer of `amount` from `sender` to `receiver` writes.
pub open spec fn planned(v: LedgerView, sender: Seq<char>, receiver: Seq<char>, amount: int) -> PlanView {
    PlanView {
        record: RecordView { sender_id: sender, amount: amount, receiver_id: receiver },
        sender_balance: balance_of(v.accounts, sender) - amount,
        receiver_balance: balance_of(v.accounts, receiver) + amount,
        sender_before: balance_of(v.accounts, sender),
        receiver_before: balance_of(v.accounts, receiver),
    }
}

impl Ledger {
    /// Checks a transfer of `amount` from `sender_id` to `receiver_id` without
    /// changing anything.
    pub fn validate_transfer(&self, sender_id: &str, receiver_id: &str, amount: i64) -> (r: Result<
        (),
        TransferError,
    >)
        requires
            self.wf(),
        ensures
            r == transfer_verdict(self@, sender_id@, receiver_id@, amount as int),
    {
        if !self.account_exists(receiver_id) {
            return Err(TransferError::UnknownReceiver);
        }
        if crate::text::same_text(receiver_id, sender_id) {
            return Err(TransferError::SelfTransfer);
        }
        if amount <= 0 {
            return Err(TransferError::InvalidAmount);
        }
        if self.available(sender_id) < amount {
            return Err(TransferError::InsufficientFunds);
        }
        Ok(())
    }

    /// Moves `amount` from `sender_id` to `receiver_id`.
    ///
    /// A transfer that validation rejects changes nothing. One that passes
    /// appends its record to the history, lowers the sender's balance by
    /// `amount` and raises the receiver's by `amount`, all in this one call.
    pub fn transfer(&mut self, sender_id: &str, receiver_id: &str, amount: i64) -> (r: Result<
        (),
        TransferError,
    >)
        requires
            old(self).wf(),
        ensures
            final(self).wf(),
            r == transfer_verdict(old(self)@, sender_id@, receiver_id@, amount as int),
            r is Err ==> final(self)@ == old(self)@,
            r is Ok ==> final(self)@ == after_transfer(
                old(self)@,
                sender_id@,
                receiver_id@,
                amount as int,
            ),
    {
        match self.validate_transfer(sender_id, receiver_id, amount) {
            Err(e) => Err(e),
            Ok(()) => {
                self.apply_transfer(sender_id, receiver_id, amount);
                Ok(())
            },
        }
    }

    /// Stages a transfer of `amount` from `sender_id` to `receiver_id` in
    /// `session`, provided that it passes validation now. A rejected transfer
    /// is not staged, and what was staged before stays.
    pub fn stage_transfer(
        &self,
        session: &mut SessionContext,
        sender_id: &str,
        receiver_id: &str,
        amount: i64,
    ) -> (r: Result<(), TransferError>)
        requires
            self.wf(),
        ensures
            r == transfer_verdict(self@, sender_id@, receiver_id@, amount as int),
            r is Err ==> final(session)@ == old(session)@,
            r is Ok ==> final(session)@ == (SessionView {
                user_id: old(session)@.user_id,
                receiver_id: Some(receiver_id@),
                t_amount: Some(amount as int),
            }),
    {
        match self.validate_transfer(sender_id, receiver_id, amount) {
            Err(e) => Err(e),
            Ok(()) => {
                session.stage_transfer(String::from_str(receiver_id), amount);
                Ok(())
            },
        }
    }

    /// What a commit of the transfer staged in `session` would write, without
    /// writing it: the record and the two balances after the move. A store
    /// that keeps the ledger writes these three values as one unit.
    pub fn plan_staged_transfer(&self, session: &SessionContext, sender_id: &str) -> (r: Result<
        TransferPlan,
        TransferError,
    >)
        requires
            self.wf(),
        ensures
            r is Ok == staged_verdict(self@, session@, sender_id@) is Ok,
            r matches Err(e) ==> staged_verdict(self@, session@, sender_id@) == Err::<
                (),
                TransferError,
            >(e),
            r matches Ok(plan) ==> plan@ == planned(
                self@,
                sender_id@,
                session@.receiver_id->0,
                session@.t_amount->0,
            ),
    {
        let receiver = match crate::session::get_receiver_id(session) {
            Some(id) => id,
            None => {
                return Err(TransferError::NothingStaged);
            },
        };
        let amount = match crate::session::get_t_amount(session) {
            Some(a) => a,
            None => {
                return Err(TransferError::NothingStaged);
            },
        };
        match self.validate_transfer(sender_id, receiver.as_str(), amount) {
            Err(e) => Err(e),
            Ok(()) => {
                let from = self.balance(sender_id).unwrap();
                let to = self.balance(receiver.as_str()).unwrap();
                proof {
                    let s = crate::model::index_of(self@.accounts, sender_id@);
                    let t = crate::model::index_of(self@.accounts, receiver@);
                    lemma_pair_le_total(self@.accounts, s, t);
                    assert(from + to <= crate::model::STARTING_GRANT * crate::model::MAX_ACCOUNTS)
                        by (nonlinear_arith)
                        requires
                            from + to <= crate::model::STARTING_GRANT * self@.accounts.len(),
                            self@.accounts.len() <= crate::model::MAX_ACCOUNTS,
                    ;
                }
                Ok(
                    TransferPlan {
                        record: crate::ledger::TransactionRecord {
                            sender_id: String::from_str(sender_id),
                            amount,
                            receiver_id: receiver,
                        },
                        sender_balance: from - amount,
                        receiver_balance: to + amount,
                        sender_before: from,
                        receiver_before: to,
                    },
                )
            },
        }
    }

    /// Checks a transfer of the amount on the keypad from `sender_id` to
    /// `receiver_id` without changing anything.
    pub fn validate_entered_transfer(
        &self,
        sender_id: &str,
        receiver_id: &str,
        entry: &AmountEntry,
    ) -> (r: Result<(), TransferError>)
        requires
            self.wf(),
        ensures
            r == entered_verdict(self@, sender_id@, receiver_id@, entry@),
    {
        match entry.value() {
            None => Err(TransferError::InvalidAmount),
            Some(amount) => self.validate_transfer(sender_id, receiver_id, amount),
        }
    }

    /// Stages a transfer of the amount on the keypad from `sender_id` to
    /// `receiver_id` in `session`, provided that the display stands for an
    /// amount and the transfer passes validation now. Otherwise nothing is
    /// staged, and what was staged before stays.
    pub fn stage_entered_transfer(
        &self,
        session: &mut SessionContext,
        sender_id: &str,
        receiver_id: &str,
        entry: &AmountEntry,
    ) -> (r: Result<(), TransferError>)
        requires
            self.wf(),
        ensures
            r == entered_verdict(self@, sender_id@, receiver_id@, entry@),
            r is Err ==> final(session)@ == old(session)@,
            r is Ok ==> final(session)@ == (SessionView {
                user_id: old(session)@.user_id,
                receiver_id: Some(receiver_id@),
                t_amount: entered_amount(entry@),
            }),
    {
        match entry.value() {
            None => Err(TransferError::InvalidAmount),
            Some(amount) => self.stage_transfer(session, sender_id, receiver_id, amount),
        }
    }

    /// Commits the transfer staged in `session` with `sender_id` as the sender.
    ///
    /// Without a staged receiver and amount the answer is `NothingStaged`.
    /// Otherwise the staged transfer is validated against the ledger as it is
    /// now. A rejection leaves the ledger and the session untouched. A commit
    /// changes the ledger as `transfer` does and clears the staged transfer, so
    /// that a second call cannot spend the amount again.
    pub fn commit_staged_transfer(&mut self, session: &mut SessionContext, sender_id: &str) -> (r:
        Result<(), TransferError>)
        requires
            old(self).wf(),
        ensures
            final(self).wf(),
            r == staged_verdict(old(self)@, old(session)@, sender_id@),
            r is Err ==> final(self)@ == old(self)@ && final(session)@ == old(session)@,
            r is Ok ==> final(self)@ == after_transfer(
                old(self)@,
                sender_id@,
                old(session)@.receiver_id->0,
                old(session)@.t_amount->0,
            ),
            r is Ok ==> final(session)@ == cleared(old(session)@),
    {
        let receiver = match crate::session::get_receiver_id(session) {
            Some(id) => id,
            None => {
                return Err(TransferError::NothingStaged);
            },
        };
        let amount = match crate::session::get_t_amount(session) {
            Some(a) => a,
            None => {
                return Err(TransferError::NothingStaged);
            },
        };
        match self.transfer(sender_id, receiver.as_str(), amount) {
            Err(e) => Err(e),
            Ok(()) => {
                session.clear_staged();
                Ok(())
            },
        }
    }

    /// Concludes a commit whose writes were handed to a store: `stored` is what
    /// the store answered.
    ///
    /// If the store failed, the answer is `TransferFailed` and neither the
    /// ledger nor the session changes. If it succeeded, this is
    /// `commit_staged_transfer`.
    pub fn finish_staged_transfer(
        &mut self,
        session: &mut SessionContext,
        sender_id: &str,
        stored: Result<(), StoreError>,
    ) -> (r: Result<(), TransferError>)
        requires
            old(self).wf(),
        ensures
            final(self).wf(),
            stored is Err ==> r == Err::<(), TransferError>(TransferError::TransferFailed),
            stored is Err ==> final(self)@ == old(self)@ && final(session)@ == old(session)@,
            stored is Ok ==> r == staged_verdict(old(self)@, old(session)@, sender_id@),
            stored is Ok && r is Err ==> final(self)@ == old(self)@ && final(session)@ == old(
                session,
            )@,
            stored is Ok && r is Ok ==> final(self)@ == after_transfer(
                old(self)@,
                sender_id@,
                old(session)@.receiver_id->0,
                old(session)@.t_amount->0,
            ) && final(session)@ == cleared(old(session)@),
    {
        match stored {
            Err(_) => Err(TransferError::TransferFailed),
            Ok(()) => self.commit_staged_transfer(session, sender_id),
        }
    }
}

} // verus!
