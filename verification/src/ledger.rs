//! The ledger: the accounts and the append-only history, held together under
//! one invariant. Only the two operations at the end of this file change it:
//! one stores a new account with its grant, the other writes a transfer.

use crate::model::genesis_record;
use crate::model::has_account;
use crate::model::index_of;
use crate::model::lemma_index_of;
use crate::model::lemma_with_account_well_formed;
use crate::model::system_id;
use crate::model::well_formed;
use crate::model::with_account;
use crate::model::AccountView;
use crate::model::LedgerView;
use crate::model::RecordView;
use crate::model::MAX_ACCOUNTS;
use crate::model::STARTING_GRANT;
use crate::model::SYSTEM_SENDER;
use crate::repository::RepoError;
use crate::text::same_text;
use vstd::prelude::*;

verus! {

/// One holder of funds.
#[derive(Debug)]
pub struct Account {
    pub id: String,
    pub email: String,
    pub display_name: String,
    pub encrypted_passport: String,
    pub encrypted_birth_date: String,
    pub credential_hash: String,
    pub balance: i64,
}

impl View for Account {
    type V = AccountView;

    open spec fn view(&self) -> AccountView {
        AccountView {
            id: self.id@,
            email: self.email@,
            display_name: self.display_name@,
            encrypted_passport: self.encrypted_passport@,
            encrypted_birth_date: self.encrypted_birth_date@,
            credential_hash: self.credential_hash@,
            balance: self.balance as int,
        }
    }
}

/// One entry of the history.
#[derive(Debug)]
pub struct TransactionRecord {
    pub sender_id: String,
    pub amount: i64,
    pub receiver_id: String,
}

impl View for TransactionRecord {
    type V = RecordView;

    open spec fn view(&self) -> RecordView {
        RecordView {
            sender_id: self.sender_id@,
            amount: self.amount as int,
            receiver_id: self.receiver_id@,
        }
    }
}

/// The accounts and the history.
pub struct Ledger {
    accounts: Vec<Account>,
    history: Vec<TransactionRecord>,
}

impl View for Ledger {
    type V = LedgerView;

    closed spec fn view(&self) -> LedgerView {
        LedgerView {
            accounts: self.accounts@.map_values(|a: Account| a@),
            history: self.history@.map_values(|r: TransactionRecord| r@),
        }
    }
}

/// The account that `insert_account` stores for these fields.
pub open spec fn new_account(
    id: Seq<char>,
    email: Seq<char>,
    display_name: Seq<char>,
    encrypted_passport: Seq<char>,
    encrypted_birth_date: Seq<char>,
    credential_hash: Seq<char>,
) -> AccountView {
    AccountView {
        id,
        email,
        display_name,
        encrypted_passport,
        encrypted_birth_date,
        credential_hash,
        balance: STARTING_GRANT as int,
    }
}

/// Whether `insert_account` accepts `id`.
pub open spec fn insert_verdict(v: LedgerView, id: Seq<char>) -> Result<(), RepoError> {
    if has_account(v.accounts, id) || id == system_id() {
        Err(RepoError::Duplicate)
    } else {
        Ok(())
    }
}

/// The record of the starting grant to the account `id`.
pub fn genesis(id: &str) -> (record: TransactionRecord)
    ensures
        record@ == genesis_record(id@),
{
    TransactionRecord {
        sender_id: String::from_str(SYSTEM_SENDER),
        amount: STARTING_GRANT,
        receiver_id: String::from_str(id),
    }
}

impl Ledger {
    /// The invariant that every operation keeps: see `well_formed`.
    pub open spec fn wf(&self) -> bool {
        well_formed(self@)
    }

    /// A ledger without accounts and without history.
    pub fn new() -> (ledger: Ledger)
        ensures
            ledger.wf(),
            ledger@.accounts.len() == 0,
            ledger@.history.len() == 0,
    {
        Ledger { accounts: Vec::new(), history: Vec::new() }
    }

    /// The position of the account `id`.
    pub(crate) fn find(&self, id: &str) -> (found: Option<usize>)
        ensures
            found matches Some(i) ==> i < self@.accounts.len() && self@.accounts[i as int].id
                == id@,
            found is None ==> !has_account(self@.accounts, id@),
            found is Some ==> has_account(self@.accounts, id@),
    {
        let mut i: usize = 0;
        while i < self.accounts.len()
            invariant
                i <= self.accounts@.len(),
                forall|k: int| 0 <= k < i ==> (#[trigger] self@.accounts[k]).id != id@,
            decreases self.accounts@.len() - i,
        {
            if same_text(self.accounts[i].id.as_str(), id) {
                assert(self@.accounts[i as int].id == id@);
                return Some(i);
            }
            i += 1;
        }
        None
    }

    /// The account at position `i`.
    pub(crate) fn at(&self, i: usize) -> (account: &Account)
        requires
            i < self@.accounts.len(),
        ensures
            account@ == self@.accounts[i as int],
    {
        &self.accounts[i]
    }

    /// The record at position `k` of the history.
    pub(crate) fn row(&self, k: usize) -> (record: &TransactionRecord)
        requires
            k < self@.history.len(),
        ensures
            record@ == self@.history[k as int],
    {
        &self.history[k]
    }

    /// Whether `id` is the identifier of an account.
    pub fn account_exists(&self, id: &str) -> (exists: bool)
        ensures
            exists == has_account(self@.accounts, id@),
    {
        self.find(id).is_some()
    }

    /// How many accounts there are.
    pub fn account_count(&self) -> (count: usize)
        ensures
            count == self@.accounts.len(),
    {
        self.accounts.len()
    }

    /// How many records the history holds.
    pub fn history_len(&self) -> (count: usize)
        ensures
            count == self@.history.len(),
    {
        self.history.len()
    }

    /// The balance of the account `id`, if there is such an account.
    pub fn balance(&self, id: &str) -> (balance: Option<i64>)
        requires
            self.wf(),
        ensures
            balance is Some == has_account(self@.accounts, id@),
            balance matches Some(b) ==> b == crate::model::balance_of(self@.accounts, id@),
    {
        match self.find(id) {
            Some(i) => {
                proof {
                    lemma_index_of(self@.accounts, i as int);
                }
                Some(self.accounts[i].balance)
            },
            None => None,
        }
    }

    /// What the account `id` can send: its balance, or nothing where there is
    /// no such account.
    pub fn available(&self, id: &str) -> (amount: i64)
        requires
            self.wf(),
        ensures
            amount == crate::model::balance_of(self@.accounts, id@),
    {
        match self.balance(id) {
            Some(b) => b,
            None => 0,
        }
    }

    /// A copy of the account `id` as it is stored, if there is such an account.
    pub fn account(&self, id: &str) -> (account: Option<Account>)
        requires
            self.wf(),
        ensures
            account is Some == has_account(self@.accounts, id@),
            account matches Some(a) ==> a@ == self@.accounts[index_of(self@.accounts, id@)],
    {
        match self.find(id) {
            Some(i) => {
                proof {
                    lemma_index_of(self@.accounts, i as int);
                }
                let a = &self.accounts[i];
                Some(
                    Account {
                        id: a.id.clone(),
                        email: a.email.clone(),
                        display_name: a.display_name.clone(),
                        encrypted_passport: a.encrypted_passport.clone(),
                        encrypted_birth_date: a.encrypted_birth_date.clone(),
                        credential_hash: a.credential_hash.clone(),
                        balance: a.balance,
                    },
                )
            },
            None => None,
        }
    }

    /// A copy of the record at position `index` of the history, counted from
    /// the oldest.
    pub fn record(&self, index: usize) -> (record: Option<TransactionRecord>)
        ensures
            record is Some == (index < self@.history.len()),
            record matches Some(r) ==> r@ == self@.history[index as int],
    {
        if index < self.history.len() {
            let r = &self.history[index];
            Some(
                TransactionRecord {
                    sender_id: r.sender_id.clone(),
                    amount: r.amount,
                    receiver_id: r.receiver_id.clone(),
                },
            )
        } else {
            None
        }
    }

    /// Stores a new account under `id` with the starting grant as its balance,
    /// and records the grant as the last entry of the history.
    ///
    /// Refuses with `Duplicate`, and changes nothing, exactly when `id` is
    /// taken by an account or is the grant sender's.
    pub fn insert_account(
        &mut self,
        id: String,
        email: String,
        display_name: String,
        encrypted_passport: String,
        encrypted_birth_date: String,
        credential_hash: String,
    ) -> (r: Result<(), RepoError>)
        requires
            old(self).wf(),
            old(self)@.accounts.len() < MAX_ACCOUNTS,
        ensures
            final(self).wf(),
            r == insert_verdict(old(self)@, id@),
            r is Err ==> final(self)@ == old(self)@,
            r is Ok ==> final(self)@ == with_account(
                old(self)@,
                new_account(
                    id@,
                    email@,
                    display_name@,
                    encrypted_passport@,
                    encrypted_birth_date@,
                    credential_hash@,
                ),
            ),
    {
        if same_text(id.as_str(), SYSTEM_SENDER) || self.find(id.as_str()).is_some() {
            return Err(RepoError::Duplicate);
        }
        let record = genesis(id.as_str());
        let account = Account {
            id,
            email,
            display_name,
            encrypted_passport,
            encrypted_birth_date,
            credential_hash,
            balance: STARTING_GRANT,
        };
        proof {
            lemma_with_account_well_formed(old(self)@, account@);
            assert(record@ == genesis_record(account@.id));
        }
        self.accounts.push(account);
        self.history.push(record);
        proof {
            assert(self@.accounts =~= old(self)@.accounts.push(account@));
            assert(self@.history =~= old(self)@.history.push(record@));
        }
        Ok(())
    }

    /// Writes a transfer that has passed validation: the record and both
    /// balances.
    pub(crate) fn apply_transfer(&mut self, sender_id: &str, receiver_id: &str, amount: i64)
        requires
            old(self).wf(),
            has_account(old(self)@.accounts, sender_id@),
            has_account(old(self)@.accounts, receiver_id@),
            sender_id@ != receiver_id@,
            amount > 0,
            crate::model::balance_of(old(self)@.accounts, sender_id@) >= amount,
        ensures
            final(self).wf(),
            final(self)@ == crate::model::after_transfer(
                old(self)@,
                sender_id@,
                receiver_id@,
                amount as int,
            ),
    {
        let s = self.find(sender_id).unwrap();
        let r = self.find(receiver_id).unwrap();
        proof {
            lemma_index_of(self@.accounts, s as int);
            lemma_index_of(self@.accounts, r as int);
            crate::model::lemma_pair_le_total(self@.accounts, s as int, r as int);
            crate::model::lemma_after_transfer_well_formed(
                self@,
                sender_id@,
                receiver_id@,
                amount as int,
            );
            assert(self@.accounts[s as int].balance + self@.accounts[r as int].balance
                <= STARTING_GRANT * MAX_ACCOUNTS) by (nonlinear_arith)
                requires
                    self@.accounts[s as int].balance + self@.accounts[r as int].balance
                        <= STARTING_GRANT * self@.accounts.len(),
                    self@.accounts.len() <= MAX_ACCOUNTS,
            ;
        }
        let lowered: i64 = self.accounts[s].balance - amount;
        let raised: i64 = self.accounts[r].balance + amount;
        self.accounts[s].balance = lowered;
        self.accounts[r].balance = raised;
        self.history.push(
            TransactionRecord {
                sender_id: String::from_str(sender_id),
                amount,
                receiver_id: String::from_str(receiver_id),
            },
        );
        proof {
            let w = crate::model::after_transfer(
                old(self)@,
                sender_id@,
                receiver_id@,
                amount as int,
            );
            assert(self@.accounts =~= w.accounts);
            assert(self@.history =~= w.history);
        }
    }
}

} // verus!
