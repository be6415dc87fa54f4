//! The mathematical model of the ledger: accounts, the append-only history,
//! the flows that the history records for an account, and what it means for
//! the two to agree.

use vstd::prelude::*;

verus! {

/// The balance that every new account is granted.
pub const STARTING_GRANT: i64 = 500;

/// The sender named on the record of a starting grant. It stands for the bank
/// itself and is no account.
pub const SYSTEM_SENDER: &'static str = "New User's Privilege";

/// The most accounts a ledger holds: with this many, the sum of all balances
/// still fits in a signed 64-bit integer.
pub const MAX_ACCOUNTS: u64 = 18_446_744_073_709_551;

/// One account, as mathematics sees it.
pub struct AccountView {
    pub id: Seq<char>,
    pub email: Seq<char>,
    pub display_name: Seq<char>,
    pub encrypted_passport: Seq<char>,
    pub encrypted_birth_date: Seq<char>,
    pub credential_hash: Seq<char>,
    pub balance: int,
}

/// One entry of the history: `amount` went from `sender_id` to `receiver_id`.
pub struct RecordView {
    pub sender_id: Seq<char>,
    pub amount: int,
    pub receiver_id: Seq<char>,
}

/// The whole ledger: the accounts in the order of their creation, and the
/// history in the order of insertion.
pub struct LedgerView {
    pub accounts: Seq<AccountView>,
    pub history: Seq<RecordView>,
}

/// The id of the grant sender.
pub open spec fn system_id() -> Seq<char> {
    SYSTEM_SENDER@
}

/// Whether some account has the id `id`.
pub open spec fn has_account(accounts: Seq<AccountView>, id: Seq<char>) -> bool {
    exists|i: int| 0 <= i < accounts.len() && (#[trigger] accounts[i]).id == id
}

/// The position of an account with the id `id`, where there is one.
pub open spec fn index_of(accounts: Seq<AccountView>, id: Seq<char>) -> int {
    choose|i: int| 0 <= i < accounts.len() && (#[trigger] accounts[i]).id == id
}

/// The balance of the account `id`; zero where there is no such account.
pub open spec fn balance_of(accounts: Seq<AccountView>, id: Seq<char>) -> int {
    if has_account(accounts, id) {
        accounts[index_of(accounts, id)].balance
    } else {
        0
    }
}

/// What the record `r` grants to `id`.
pub open spec fn row_grant(r: RecordView, id: Seq<char>) -> int {
    if r.sender_id == system_id() && r.receiver_id == id {
        r.amount
    } else {
        0
    }
}

/// What `id` receives from another account by the record `r`.
pub open spec fn row_receipt(r: RecordView, id: Seq<char>) -> int {
    if r.sender_id != system_id() && r.receiver_id == id {
        r.amount
    } else {
        0
    }
}

/// What `id` sends by the record `r`.
pub open spec fn row_send(r: RecordView, id: Seq<char>) -> int {
    if r.sender_id == id {
        r.amount
    } else {
        0
    }
}

/// The sum of the grants that the history records for `id`.
pub open spec fn granted(history: Seq<RecordView>, id: Seq<char>) -> int
    decreases history.len(),
{
    if history.len() == 0 {
        0
    } else {
        granted(history.drop_last(), id) + row_grant(history.last(), id)
    }
}

/// The sum of what `id` received from other accounts.
pub open spec fn received(history: Seq<RecordView>, id: Seq<char>) -> int
    decreases history.len(),
{
    if history.len() == 0 {
        0
    } else {
        received(history.drop_last(), id) + row_receipt(history.last(), id)
    }
}

/// The sum of what `id` sent.
pub open spec fn sent(history: Seq<RecordView>, id: Seq<char>) -> int
    decreases history.len(),
{
    if history.len() == 0 {
        0
    } else {
        sent(history.drop_last(), id) + row_send(history.last(), id)
    }
}

/// The sum of all balances.
pub open spec fn total_balance(accounts: Seq<AccountView>) -> int
    decreases accounts.len(),
{
    if accounts.len() == 0 {
        0
    } else {
        total_balance(accounts.drop_last()) + accounts.last().balance
    }
}

/// No two accounts share an id.
pub open spec fn unique_ids(accounts: Seq<AccountView>) -> bool {
    forall|i: int, j: int|
        0 <= i < accounts.len() && 0 <= j < accounts.len() && i != j ==> (
        #[trigger] accounts[i]).id != (#[trigger] accounts[j]).id
}

/// A record is sound: its amount is positive, its receiver is an account, its
/// sender is the grant sender or an account, and the two differ.
pub open spec fn row_ok(accounts: Seq<AccountView>, r: RecordView) -> bool {
    &&& r.amount > 0
    &&& has_account(accounts, r.receiver_id)
    &&& r.sender_id == system_id() || has_account(accounts, r.sender_id)
    &&& r.sender_id != r.receiver_id
}

/// Every record of the history is sound.
pub open spec fn rows_ok(accounts: Seq<AccountView>, history: Seq<RecordView>) -> bool {
    forall|k: int| 0 <= k < history.len() ==> row_ok(accounts, #[trigger] history[k])
}

/// The balance of `a` is what the history says it is: the grants, plus the
/// receipts, minus the sends.
pub open spec fn reconciled(history: Seq<RecordView>, a: AccountView) -> bool {
    a.balance == granted(history, a.id) + received(history, a.id) - sent(history, a.id)
}

/// The ledger's invariant.
pub open spec fn well_formed(v: LedgerView) -> bool {
    &&& v.accounts.len() <= MAX_ACCOUNTS
    &&& unique_ids(v.accounts)
    &&& forall|i: int| 0 <= i < v.accounts.len() ==> (#[trigger] v.accounts[i]).id != system_id()
    &&& forall|i: int| 0 <= i < v.accounts.len() ==> (#[trigger] v.accounts[i]).balance >= 0
    &&& rows_ok(v.accounts, v.history)
    &&& forall|i: int|
        0 <= i < v.accounts.len() ==> granted(v.history, (#[trigger] v.accounts[i]).id)
            == STARTING_GRANT
    &&& forall|i: int| 0 <= i < v.accounts.len() ==> reconciled(v.history, #[trigger] v.accounts[i])
    &&& total_balance(v.accounts) == STARTING_GRANT * v.accounts.len()
}

/// The record of the starting grant to `id`.
pub open spec fn genesis_record(id: Seq<char>) -> RecordView {
    RecordView { sender_id: system_id(), amount: STARTING_GRANT as int, receiver_id: id }
}

/// The ledger after the account `a` was created: `a` is the last account and
/// its grant is the last record.
pub open spec fn with_account(v: LedgerView, a: AccountView) -> LedgerView {
    LedgerView { accounts: v.accounts.push(a), history: v.history.push(genesis_record(a.id)) }
}

/// The account `a` with `delta` added to its balance.
pub open spec fn adjusted(a: AccountView, delta: int) -> AccountView {
    AccountView { balance: a.balance + delta, ..a }
}

/// The ledger after `amount` moved from `sender` to `receiver`: the sender's
/// balance is lower by `amount`, the receiver's higher by `amount`, every
/// other account is as it was, and the record of the move is the last one.
pub open spec fn after_transfer(
    v: LedgerView,
    sender: Seq<char>,
    receiver: Seq<char>,
    amount: int,
) -> LedgerView {
    let s = index_of(v.accounts, sender);
    let r = index_of(v.accounts, receiver);
    LedgerView {
        accounts: v.accounts.update(s, adjusted(v.accounts[s], -amount)).update(
            r,
            adjusted(v.accounts[r], amount),
        ),
        history: v.history.push(
            RecordView { sender_id: sender, amount: amount, receiver_id: receiver },
        ),
    }
}

/// Appending a record adds its share to each of the three sums.
pub proof fn lemma_flows_push(history: Seq<RecordView>, r: RecordView, id: Seq<char>)
    ensures
        granted(history.push(r), id) == granted(history, id) + row_grant(r, id),
        received(history.push(r), id) == received(history, id) + row_receipt(r, id),
        sent(history.push(r), id) == sent(history, id) + row_send(r, id),
{
    assert(history.push(r).drop_last() =~= history);
    assert(history.push(r).last() == r);
}

/// An id that is neither an account nor the grant sender has no flows in a
/// sound history.
pub proof fn lemma_stranger_has_no_flows(
    accounts: Seq<AccountView>,
    history: Seq<RecordView>,
    id: Seq<char>,
)
    requires
        rows_ok(accounts, history),
        !has_account(accounts, id),
        id != system_id(),
    ensures
        granted(history, id) == 0,
        received(history, id) == 0,
        sent(history, id) == 0,
    decreases history.len(),
{
    if history.len() > 0 {
        let rest = history.drop_last();
        assert forall|k: int| 0 <= k < rest.len() implies row_ok(accounts, #[trigger] rest[k]) by {
            assert(rest[k] == history[k]);
        }
        lemma_stranger_has_no_flows(accounts, rest, id);
        assert(row_ok(accounts, history[history.len() - 1]));
    }
}

/// With unique ids, the position of an id is the position of the account that
/// has it.
pub proof fn lemma_index_of(accounts: Seq<AccountView>, i: int)
    requires
        unique_ids(accounts),
        0 <= i < accounts.len(),
    ensures
        has_account(accounts, accounts[i].id),
        index_of(accounts, accounts[i].id) == i,
{
    let id = accounts[i].id;
    assert(0 <= i < accounts.len() && accounts[i].id == id);
    let j = index_of(accounts, id);
    assert(0 <= j < accounts.len() && accounts[j].id == id);
    if j != i {
        assert(accounts[i].id != accounts[j].id);
    }
}

/// A new account adds its balance to the total.
pub proof fn lemma_total_push(accounts: Seq<AccountView>, a: AccountView)
    ensures
        total_balance(accounts.push(a)) == total_balance(accounts) + a.balance,
{
    assert(accounts.push(a).drop_last() =~= accounts);
}

/// Replacing one account changes the total by the change of its balance.
pub proof fn lemma_total_update(accounts: Seq<AccountView>, i: int, a: AccountView)
    requires
        0 <= i < accounts.len(),
    ensures
        total_balance(accounts.update(i, a)) == total_balance(accounts) - accounts[i].balance
            + a.balance,
    decreases accounts.len(),
{
    let updated = accounts.update(i, a);
    if i == accounts.len() - 1 {
        assert(updated.drop_last() =~= accounts.drop_last());
    } else {
        assert(updated.drop_last() =~= accounts.drop_last().update(i, a));
        lemma_total_update(accounts.drop_last(), i, a);
    }
}

/// Where no balance is negative, no balance exceeds the total.
pub proof fn lemma_one_le_total(accounts: Seq<AccountView>, i: int)
    requires
        forall|k: int| 0 <= k < accounts.len() ==> (#[trigger] accounts[k]).balance >= 0,
        0 <= i < accounts.len(),
    ensures
        0 <= accounts[i].balance <= total_balance(accounts),
        0 <= total_balance(accounts.drop_last()),
    decreases accounts.len(),
{
    let rest = accounts.drop_last();
    assert forall|k: int| 0 <= k < rest.len() implies (#[trigger] rest[k]).balance >= 0 by {
        assert(rest[k] == accounts[k]);
    }
    if rest.len() > 0 {
        if i < rest.len() {
            lemma_one_le_total(rest, i);
        } else {
            lemma_one_le_total(rest, 0);
        }
    }
    assert(accounts.last() == accounts[accounts.len() - 1]);
}

/// Where no balance is negative, two different accounts together hold no more
/// than the total.
pub proof fn lemma_pair_le_total(accounts: Seq<AccountView>, i: int, j: int)
    requires
        forall|k: int| 0 <= k < accounts.len() ==> (#[trigger] accounts[k]).balance >= 0,
        0 <= i < accounts.len(),
        0 <= j < accounts.len(),
        i != j,
    ensures
        accounts[i].balance + accounts[j].balance <= total_balance(accounts),
    decreases accounts.len(),
{
    let rest = accounts.drop_last();
    let n = accounts.len() - 1;
    assert forall|k: int| 0 <= k < rest.len() implies (#[trigger] rest[k]).balance >= 0 by {
        assert(rest[k] == accounts[k]);
    }
    assert(accounts.last() == accounts[n]);
    if i == n {
        lemma_one_le_total(rest, j);
    } else if j == n {
        lemma_one_le_total(rest, i);
    } else {
        lemma_pair_le_total(rest, i, j);
        assert(accounts[n].balance >= 0);
    }
}

/// Two account lists with the same ids, position by position, have the same
/// accounts as far as ids go.
pub proof fn lemma_same_ids(a: Seq<AccountView>, b: Seq<AccountView>, id: Seq<char>)
    requires
        a.len() == b.len(),
        forall|k: int| 0 <= k < a.len() ==> (#[trigger] a[k]).id == b[k].id,
    ensures
        has_account(a, id) ==> has_account(b, id),
{
    if has_account(a, id) {
        let i = index_of(a, id);
        assert(a[i].id == id);
        assert(b[i].id == id);
    }
}

/// An id that is an account stays one when another account is added.
pub proof fn lemma_has_account_push(accounts: Seq<AccountView>, a: AccountView, id: Seq<char>)
    ensures
        has_account(accounts, id) ==> has_account(accounts.push(a), id),
        has_account(accounts.push(a), a.id),
{
    let grown = accounts.push(a);
    if has_account(accounts, id) {
        let i = index_of(accounts, id);
        assert(accounts[i].id == id);
        assert(grown[i].id == id);
    }
    assert(grown[accounts.len() as int].id == a.id);
}

/// Creating an account keeps the ledger's invariant, provided that its id is
/// new, that it is not the grant sender's, and that the account starts with
/// the grant.
pub proof fn lemma_with_account_well_formed(v: LedgerView, a: AccountView)
    requires
        well_formed(v),
        v.accounts.len() < MAX_ACCOUNTS,
        !has_account(v.accounts, a.id),
        a.id != system_id(),
        a.balance == STARTING_GRANT,
    ensures
        well_formed(with_account(v, a)),
{
    let w = with_account(v, a);
    let g = genesis_record(a.id);
    let n = v.accounts.len() as int;
    assert(w.accounts.len() == n + 1);
    assert(w.accounts[n] == a);
    assert forall|i: int| 0 <= i < n implies #[trigger] w.accounts[i] == v.accounts[i] by {}
    assert forall|i: int| 0 <= i < n implies (#[trigger] v.accounts[i]).id != a.id by {
        if v.accounts[i].id == a.id {
            assert(has_account(v.accounts, a.id));
        }
    }
    assert(unique_ids(w.accounts)) by {
        assert forall|i: int, j: int|
            0 <= i < w.accounts.len() && 0 <= j < w.accounts.len() && i != j implies (
            #[trigger] w.accounts[i]).id != (#[trigger] w.accounts[j]).id by {
            if i < n && j < n {
                assert(v.accounts[i].id != v.accounts[j].id);
            } else if i < n {
                assert(v.accounts[i].id != a.id);
            } else {
                assert(v.accounts[j].id != a.id);
            }
        }
    }
    assert(rows_ok(w.accounts, w.history)) by {
        assert forall|k: int| 0 <= k < w.history.len() implies row_ok(
            w.accounts,
            #[trigger] w.history[k],
        ) by {
            if k < v.history.len() {
                let r = v.history[k];
                assert(w.history[k] == r);
                assert(row_ok(v.accounts, r));
                lemma_has_account_push(v.accounts, a, r.receiver_id);
                lemma_has_account_push(v.accounts, a, r.sender_id);
            } else {
                assert(w.history[k] == g);
                lemma_has_account_push(v.accounts, a, a.id);
            }
        }
    }
    lemma_stranger_has_no_flows(v.accounts, v.history, a.id);
    assert forall|i: int| 0 <= i < w.accounts.len() implies granted(
        w.history,
        (#[trigger] w.accounts[i]).id,
    ) == STARTING_GRANT && reconciled(w.history, w.accounts[i]) by {
        let id = w.accounts[i].id;
        lemma_flows_push(v.history, g, id);
        if i < n {
            assert(v.accounts[i].id != a.id);
            assert(reconciled(v.history, v.accounts[i]));
            assert(v.accounts[i].id != system_id());
        }
    }
    lemma_total_push(v.accounts, a);
}

/// A transfer that passes validation keeps the ledger's invariant.
pub proof fn lemma_after_transfer_well_formed(
    v: LedgerView,
    sender: Seq<char>,
    receiver: Seq<char>,
    amount: int,
)
    requires
        well_formed(v),
        has_account(v.accounts, sender),
        has_account(v.accounts, receiver),
        sender != receiver,
        amount > 0,
        balance_of(v.accounts, sender) >= amount,
    ensures
        well_formed(after_transfer(v, sender, receiver, amount)),
{
    let w = after_transfer(v, sender, receiver, amount);
    let s = index_of(v.accounts, sender);
    let r = index_of(v.accounts, receiver);
    let row = RecordView { sender_id: sender, amount: amount, receiver_id: receiver };
    let mid = v.accounts.update(s, adjusted(v.accounts[s], -amount));
    assert(v.accounts[s].id == sender);
    assert(v.accounts[r].id == receiver);
    assert(s != r);
    assert(sender != system_id());
    assert(w.accounts.len() == v.accounts.len());
    assert forall|k: int| 0 <= k < v.accounts.len() implies (#[trigger] w.accounts[k]).id
        == v.accounts[k].id && w.accounts[k].balance == v.accounts[k].balance + (if k == r {
        amount
    } else {
        0
    }) - (if k == s {
        amount
    } else {
        0
    }) by {}
    assert(unique_ids(w.accounts)) by {
        assert forall|i: int, j: int|
            0 <= i < w.accounts.len() && 0 <= j < w.accounts.len() && i != j implies (
            #[trigger] w.accounts[i]).id != (#[trigger] w.accounts[j]).id by {
            assert(v.accounts[i].id != v.accounts[j].id);
        }
    }
    assert forall|i: int| 0 <= i < w.accounts.len() implies (#[trigger] w.accounts[i]).id
        != system_id() && w.accounts[i].balance >= 0 by {
        assert(v.accounts[i].id != system_id());
        assert(v.accounts[i].balance >= 0);
    }
    assert(rows_ok(w.accounts, w.history)) by {
        assert forall|k: int| 0 <= k < w.history.len() implies row_ok(
            w.accounts,
            #[trigger] w.history[k],
        ) by {
            if k < v.history.len() {
                let old_row = v.history[k];
                assert(w.history[k] == old_row);
                assert(row_ok(v.accounts, old_row));
                lemma_same_ids(v.accounts, w.accounts, old_row.receiver_id);
                lemma_same_ids(v.accounts, w.accounts, old_row.sender_id);
            } else {
                assert(w.history[k] == row);
                lemma_same_ids(v.accounts, w.accounts, receiver);
                lemma_same_ids(v.accounts, w.accounts, sender);
            }
        }
    }
    assert forall|i: int| 0 <= i < w.accounts.len() implies granted(
        w.history,
        (#[trigger] w.accounts[i]).id,
    ) == STARTING_GRANT && reconciled(w.history, w.accounts[i]) by {
        let id = w.accounts[i].id;
        lemma_flows_push(v.history, row, id);
        assert(reconciled(v.history, v.accounts[i]));
        assert(granted(v.history, v.accounts[i].id) == STARTING_GRANT);
        if i != s {
            assert(v.accounts[i].id != v.accounts[s].id);
        }
        if i != r {
            assert(v.accounts[i].id != v.accounts[r].id);
        }
    }
    lemma_total_update(v.accounts, s, adjusted(v.accounts[s], -amount));
    lemma_total_update(mid, r, adjusted(v.accounts[r], amount));
}

} // verus!
