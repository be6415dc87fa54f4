//! Rebuilding a ledger from what a store holds: the account rows and the
//! history. The history is replayed record by record, so that the balances of
//! the rebuilt ledger are those that the history accounts for, and the stored
//! balances are then held against them.

use crate::ledger::insert_verdict;
use crate::ledger::Account;
use crate::ledger::Ledger;
use crate::ledger::TransactionRecord;
use crate::model::after_transfer;
use crate::model::balance_of;
use crate::model::has_account;
use crate::model::system_id;
use crate::model::with_account;
use crate::model::AccountView;
use crate::model::LedgerView;
use crate::model::RecordView;
use crate::model::MAX_ACCOUNTS;
use crate::model::STARTING_GRANT;
use crate::model::SYSTEM_SENDER;
use crate::text::same_text;
use crate::transfer::transfer_verdict;
use vstd::prelude::*;

verus! {

/// Why a ledger could not be rebuilt.
#[derive(Debug, Clone, Copy, PartialEq, Eq, Structural)]
pub enum RestoreError {
    /// A record of the history cannot have been committed after the records
    /// before it.
    History,
    /// The account rows are not the accounts that the history accounts for,
    /// or a stored balance is not the balance that it accounts for.
    Accounts,
}

/// The views of a list of account rows.
pub open spec fn row_views(rows: Seq<Account>) -> Seq<AccountView> {
    rows.map_values(|a: Account| a@)
}

/// The views of a list of records.
pub open spec fn record_views(history: Seq<TransactionRecord>) -> Seq<RecordView> {
    history.map_values(|r: TransactionRecord| r@)
}

/// Whether `i` is the position of the first row with the id `id`.
pub open spec fn is_first_with(rows: Seq<AccountView>, id: Seq<char>, i: int) -> bool {
    &&& 0 <= i < rows.len()
    &&& rows[i].id == id
    &&& forall|j: int| 0 <= j < i ==> (#[trigger] rows[j]).id != id
}

/// The position of the first row with the id `id`, where there is one.
pub open spec fn first_with(rows: Seq<AccountView>, id: Seq<char>) -> int {
    choose|i: int| is_first_with(rows, id, i)
}

/// The empty ledger.
pub open spec fn empty_ledger() -> LedgerView {
    LedgerView { accounts: Seq::empty(), history: Seq::empty() }
}

/// The ledger after the record `row` was replayed on `v`, or `None` where it
/// cannot be. A grant creates the account of its receiver from the receiver's
/// row, with the grant as its balance; it must be the starting grant, and the
/// receiver must have a row and no account yet. Any other record is a
/// transfer and must pass validation.
pub open spec fn replay_step(rows: Seq<AccountView>, v: LedgerView, row: RecordView) -> Option<
    LedgerView,
> {
    if row.sender_id == system_id() {
        if row.amount == STARTING_GRANT && has_account(rows, row.receiver_id) && insert_verdict(
            v,
            row.receiver_id,
        ) is Ok && v.accounts.len() < MAX_ACCOUNTS {
            Some(
                with_account(
                    v,
                    AccountView {
                        balance: STARTING_GRANT as int,
                        ..rows[first_with(rows, row.receiver_id)]
                    },
                ),
            )
        } else {
            None
        }
    } else if transfer_verdict(v, row.sender_id, row.receiver_id, row.amount) is Ok {
        Some(after_transfer(v, row.sender_id, row.receiver_id, row.amount))
    } else {
        None
    }
}

/// The ledger after the whole history was replayed on the empty ledger.
pub open spec fn replayed(rows: Seq<AccountView>, history: Seq<RecordView>) -> Option<LedgerView>
    decreases history.len(),
{
    if history.len() == 0 {
        Some(empty_ledger())
    } else {
        match replayed(rows, history.drop_last()) {
            None => None,
            Some(v) => replay_step(rows, v, history.last()),
        }
    }
}

/// Whether the rows are the accounts of `v`: as many, each an account, each
/// with the balance that `v` has for it.
pub open spec fn rows_agree(rows: Seq<AccountView>, v: LedgerView) -> bool {
    &&& rows.len() == v.accounts.len()
    &&& forall|i: int|
        0 <= i < rows.len() ==> has_account(v.accounts, (#[trigger] rows[i]).id) && balance_of(
            v.accounts,
            rows[i].id,
        ) == rows[i].balance
}

/// What `restore` returns, as far as mathematics goes.
pub open spec fn restored(rows: Seq<AccountView>, history: Seq<RecordView>) -> Result<
    LedgerView,
    RestoreError,
> {
    match replayed(rows, history) {
        None => Err(RestoreError::History),
        Some(v) => if rows_agree(rows, v) {
            Ok(v)
        } else {
            Err(RestoreError::Accounts)
        },
    }
}

/// The view of a rebuilt ledger.
pub open spec fn ledger_view(r: Result<Ledger, RestoreError>) -> Result<LedgerView, RestoreError> {
    match r {
        Ok(ledger) => Ok(ledger@),
        Err(e) => Err(e),
    }
}

/// Once a prefix of the history cannot be replayed, the whole cannot.
proof fn lemma_replay_stays_broken(rows: Seq<AccountView>, history: Seq<RecordView>, k: int)
    requires
        0 <= k <= history.len(),
        replayed(rows, history.take(k)) is None,
    ensures
        replayed(rows, history) is None,
    decreases history.len() - k,
{
    if k == history.len() {
        assert(history.take(k) =~= history);
    } else {
        assert(history.take(k + 1).drop_last() =~= history.take(k));
        lemma_replay_stays_broken(rows, history, k + 1);
    }
}

/// The position of the first row with the id `id`.
fn find_row(rows: &Vec<Account>, id: &str) -> (found: Option<usize>)
    ensures
        found is Some == has_account(row_views(rows@), id@),
        found matches Some(i) ==> i == first_with(row_views(rows@), id@) && is_first_with(
            row_views(rows@),
            id@,
            i as int,
        ),
{
    let ghost views = row_views(rows@);
    let mut i: usize = 0;
    while i < rows.len()
        invariant
            views == row_views(rows@),
            i <= rows@.len(),
            forall|j: int| 0 <= j < i ==> (#[trigger] views[j]).id != id@,
        decreases rows@.len() - i,
    {
        if same_text(rows[i].id.as_str(), id) {
            assert(views[i as int].id == id@);
            assert(is_first_with(views, id@, i as int));
            let ghost chosen = first_with(views, id@);
            assert(is_first_with(views, id@, chosen));
            assert(chosen == i) by {
                if chosen < i {
                    assert(views[chosen].id != id@);
                } else if chosen > i {
                    assert(views[i as int].id != id@);
                }
            }
            return Some(i);
        }
        i += 1;
    }
    None
}

/// Rebuilds the ledger from the account rows and the history of a store.
///
/// The history is replayed in its order on an empty ledger: each grant
/// creates the account of its receiver from the receiver's row, each other
/// record is committed as a transfer. If a record cannot be replayed, the
/// answer is `History`. If, after the replay, the rows are not the accounts
/// of the ledger with the balances of the ledger, the answer is `Accounts`.
/// Otherwise the rebuilt ledger satisfies the invariant and holds the history
/// as it was given.
pub fn restore(rows: &Vec<Account>, history: &Vec<TransactionRecord>) -> (r: Result<
    Ledger,
    RestoreError,
>)
    ensures
        ledger_view(r) == restored(row_views(rows@), record_views(history@)),
        r matches Ok(ledger) ==> ledger.wf() && ledger@.history == record_views(history@),
{
    let ghost stored = row_views(rows@);
    let ghost records = record_views(history@);
    let mut ledger = Ledger::new();
    let mut k: usize = 0;
    proof {
        assert(records.take(0) =~= Seq::<RecordView>::empty());
        assert(ledger@.accounts =~= Seq::<AccountView>::empty());
        assert(ledger@.history =~= Seq::<RecordView>::empty());
    }
    while k < history.len()
        invariant
            stored == row_views(rows@),
            records == record_views(history@),
            k <= history@.len(),
            ledger.wf(),
            replayed(stored, records.take(k as int)) == Some(ledger@),
            ledger@.history == records.take(k as int),
        decreases history@.len() - k,
    {
        let row = &history[k];
        let ghost before = ledger@;
        proof {
            assert(records.take(k + 1).drop_last() =~= records.take(k as int));
            assert(records.take(k + 1).last() == row@);
        }
        let applied = if same_text(row.sender_id.as_str(), SYSTEM_SENDER) {
            if row.amount != STARTING_GRANT || ledger.account_count() as u64 >= MAX_ACCOUNTS {
                false
            } else {
                match find_row(rows, row.receiver_id.as_str()) {
                    None => false,
                    Some(i) => {
                        let a = &rows[i];
                        assert(stored[i as int] == a@);
                        ledger.insert_account(
                            row.receiver_id.clone(),
                            a.email.clone(),
                            a.display_name.clone(),
                            a.encrypted_passport.clone(),
                            a.encrypted_birth_date.clone(),
                            a.credential_hash.clone(),
                        ).is_ok()
                    },
                }
            }
        } else {
            ledger.transfer(row.sender_id.as_str(), row.receiver_id.as_str(), row.amount).is_ok()
        };
        if !applied {
            proof {
                assert(replay_step(stored, before, row@) is None);
                lemma_replay_stays_broken(stored, records, k + 1);
            }
            return Err(RestoreError::History);
        }
        proof {
            assert(replay_step(stored, before, row@) == Some(ledger@));
            assert(ledger@.history =~= records.take(k + 1));
        }
        k += 1;
    }
    proof {
        assert(records.take(k as int) =~= records);
    }
    if rows.len() != ledger.account_count() {
        return Err(RestoreError::Accounts);
    }
    let mut i: usize = 0;
    while i < rows.len()
        invariant
            stored == row_views(rows@),
            records == record_views(history@),
            ledger.wf(),
            ledger@.history == records,
            i <= rows@.len(),
            rows@.len() == ledger@.accounts.len(),
            replayed(stored, records) == Some(ledger@),
            forall|j: int|
                0 <= j < i ==> has_account(ledger@.accounts, (#[trigger] stored[j]).id)
                    && balance_of(ledger@.accounts, stored[j].id) == stored[j].balance,
        decreases rows@.len() - i,
    {
        let a = &rows[i];
        assert(stored[i as int] == a@);
        match ledger.balance(a.id.as_str()) {
            Some(b) => {
                if b != a.balance {
                    assert(!rows_agree(stored, ledger@)) by {
                        assert(balance_of(ledger@.accounts, stored[i as int].id)
                            != stored[i as int].balance);
                    }
                    return Err(RestoreError::Accounts);
                }
            },
            None => {
                assert(!rows_agree(stored, ledger@)) by {
                    assert(!has_account(ledger@.accounts, stored[i as int].id));
                }
                return Err(RestoreError::Accounts);
            },
        }
        i += 1;
    }
    Ok(ledger)
}

} // verus!
