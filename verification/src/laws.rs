//! What holds of the ledger whatever its state: the effect of a committed
//! transfer, reconciliation of every balance with the history, conservation
//! of money, and the boundaries of validation.

use crate::model::after_transfer;
use crate::model::genesis_record;
use crate::model::lemma_flows_push;
use crate::model::lemma_stranger_has_no_flows;
use crate::model::lemma_with_account_well_formed;
use crate::model::system_id;
use crate::model::with_account;
use crate::model::AccountView;
use crate::model::MAX_ACCOUNTS;
use crate::model::balance_of;
use crate::model::has_account;
use crate::model::index_of;
use crate::model::lemma_after_transfer_well_formed;
use crate::model::lemma_index_of;
use crate::model::lemma_same_ids;
use crate::model::received;
use crate::model::sent;
use crate::model::total_balance;
use crate::model::well_formed;
use crate::model::LedgerView;
use crate::model::RecordView;
use crate::model::STARTING_GRANT;
use crate::transfer::transfer_verdict;
use crate::transfer::TransferError;
use vstd::prelude::*;

verus! {

/// A transfer changes no identifier, so every account is found where it was,
/// with its balance changed by what it received and what it sent.
pub proof fn lemma_balances_after_transfer(
    v: LedgerView,
    sender: Seq<char>,
    receiver: Seq<char>,
    amount: int,
    id: Seq<char>,
)
    requires
        well_formed(v),
        transfer_verdict(v, sender, receiver, amount) is Ok,
    ensures
        has_account(after_transfer(v, sender, receiver, amount).accounts, id) == has_account(
            v.accounts,
            id,
        ),
        balance_of(after_transfer(v, sender, receiver, amount).accounts, id) == balance_of(
            v.accounts,
            id,
        ) + (if id == receiver {
            amount
        } else {
            0
        }) - (if id == sender {
            amount
        } else {
            0
        }),
{
    let w = after_transfer(v, sender, receiver, amount);
    let s = index_of(v.accounts, sender);
    let r = index_of(v.accounts, receiver);
    assert(has_account(v.accounts, sender));
    lemma_after_transfer_well_formed(v, sender, receiver, amount);
    assert forall|k: int| 0 <= k < v.accounts.len() implies (#[trigger] w.accounts[k]).id
        == v.accounts[k].id by {}
    assert forall|k: int| 0 <= k < w.accounts.len() implies (#[trigger] v.accounts[k]).id
        == w.accounts[k].id by {}
    lemma_same_ids(v.accounts, w.accounts, id);
    lemma_same_ids(w.accounts, v.accounts, id);
    if has_account(v.accounts, id) {
        let i = index_of(v.accounts, id);
        lemma_index_of(v.accounts, i);
        lemma_index_of(w.accounts, i);
        lemma_index_of(v.accounts, s);
        lemma_index_of(v.accounts, r);
    }
}

/// A committed transfer lowers the sender's balance by the amount, raises the
/// receiver's by the amount, leaves every other balance alone, and appends
/// the record of the move after all earlier records, which stay as they were.
pub proof fn law_committed_transfer(
    v: LedgerView,
    sender: Seq<char>,
    receiver: Seq<char>,
    amount: int,
)
    requires
        well_formed(v),
        transfer_verdict(v, sender, receiver, amount) is Ok,
    ensures
        well_formed(after_transfer(v, sender, receiver, amount)),
        balance_of(after_transfer(v, sender, receiver, amount).accounts, sender) == balance_of(
            v.accounts,
            sender,
        ) - amount,
        balance_of(after_transfer(v, sender, receiver, amount).accounts, receiver) == balance_of(
            v.accounts,
            receiver,
        ) + amount,
        forall|id: Seq<char>|
            id != sender && id != receiver ==> #[trigger] balance_of(
                after_transfer(v, sender, receiver, amount).accounts,
                id,
            ) == balance_of(v.accounts, id),
        after_transfer(v, sender, receiver, amount).history.len() == v.history.len() + 1,
        after_transfer(v, sender, receiver, amount).history.last() == (RecordView {
            sender_id: sender,
            amount: amount,
            receiver_id: receiver,
        }),
        forall|k: int|
            0 <= k < v.history.len() ==> #[trigger] after_transfer(
                v,
                sender,
                receiver,
                amount,
            ).history[k] == v.history[k],
{
    let w = after_transfer(v, sender, receiver, amount);
    assert(has_account(v.accounts, sender));
    lemma_after_transfer_well_formed(v, sender, receiver, amount);
    lemma_balances_after_transfer(v, sender, receiver, amount, sender);
    lemma_balances_after_transfer(v, sender, receiver, amount, receiver);
    assert forall|id: Seq<char>| id != sender && id != receiver implies #[trigger] balance_of(
        w.accounts,
        id,
    ) == balance_of(v.accounts, id) by {
        lemma_balances_after_transfer(v, sender, receiver, amount, id);
    }
}

/// Reconciliation: in every state that the ledger can reach, the balance of an
/// account is its starting grant, plus what it received from other accounts,
/// minus what it sent, summed over the records of the history that name it.
pub proof fn law_reconciliation(v: LedgerView, id: Seq<char>)
    requires
        well_formed(v),
        has_account(v.accounts, id),
    ensures
        balance_of(v.accounts, id) == STARTING_GRANT + received(v.history, id) - sent(
            v.history,
            id,
        ),
        balance_of(v.accounts, id) >= 0,
{
    let i = index_of(v.accounts, id);
    assert(crate::model::reconciled(v.history, v.accounts[i]));
    assert(crate::model::granted(v.history, v.accounts[i].id) == STARTING_GRANT);
}

/// Conservation: the accounts together hold the starting grant once for each
/// account, and a committed transfer does not change that sum.
pub proof fn law_conservation(v: LedgerView, sender: Seq<char>, receiver: Seq<char>, amount: int)
    requires
        well_formed(v),
        transfer_verdict(v, sender, receiver, amount) is Ok,
    ensures
        total_balance(v.accounts) == STARTING_GRANT * v.accounts.len(),
        total_balance(after_transfer(v, sender, receiver, amount).accounts) == total_balance(
            v.accounts,
        ),
{
    assert(has_account(v.accounts, sender));
    lemma_after_transfer_well_formed(v, sender, receiver, amount);
}

/// Between two different accounts and for a positive amount, a transfer is
/// rejected for insufficient funds exactly when the amount exceeds the
/// sender's balance. An amount equal to the balance goes through and leaves
/// the sender with nothing.
pub proof fn law_insufficient_funds(
    v: LedgerView,
    sender: Seq<char>,
    receiver: Seq<char>,
    amount: int,
)
    requires
        well_formed(v),
        has_account(v.accounts, receiver),
        sender != receiver,
        amount > 0,
    ensures
        amount > balance_of(v.accounts, sender) <==> transfer_verdict(v, sender, receiver, amount)
            == Err::<(), TransferError>(TransferError::InsufficientFunds),
        amount <= balance_of(v.accounts, sender) <==> transfer_verdict(
            v,
            sender,
            receiver,
            amount,
        ) is Ok,
        amount == balance_of(v.accounts, sender) ==> balance_of(
            after_transfer(v, sender, receiver, amount).accounts,
            sender,
        ) == 0,
{
    if amount == balance_of(v.accounts, sender) {
        lemma_balances_after_transfer(v, sender, receiver, amount, sender);
    }
}

/// A transfer from an account to itself is rejected as a self-transfer,
/// whatever the amount and the balance.
pub proof fn law_self_transfer(v: LedgerView, id: Seq<char>, amount: int)
    requires
        has_account(v.accounts, id),
    ensures
        transfer_verdict(v, id, id, amount) == Err::<(), TransferError>(
            TransferError::SelfTransfer,
        ),
{
}

/// Two transfers of the same amount in opposite directions, committed one
/// after the other, both pass validation once the first does, and leave both
/// balances as they were.
pub proof fn law_opposite_transfers(v: LedgerView, a: Seq<char>, b: Seq<char>, amount: int)
    requires
        well_formed(v),
        transfer_verdict(v, a, b, amount) is Ok,
    ensures
        transfer_verdict(after_transfer(v, a, b, amount), b, a, amount) is Ok,
        balance_of(after_transfer(after_transfer(v, a, b, amount), b, a, amount).accounts, a)
            == balance_of(v.accounts, a),
        balance_of(after_transfer(after_transfer(v, a, b, amount), b, a, amount).accounts, b)
            == balance_of(v.accounts, b),
        total_balance(after_transfer(after_transfer(v, a, b, amount), b, a, amount).accounts)
            == total_balance(v.accounts),
{
    let w = after_transfer(v, a, b, amount);
    assert(has_account(v.accounts, a));
    lemma_after_transfer_well_formed(v, a, b, amount);
    lemma_balances_after_transfer(v, a, b, amount, a);
    lemma_balances_after_transfer(v, a, b, amount, b);
    let i = index_of(v.accounts, b);
    assert(v.accounts[i].balance >= 0);
    assert(transfer_verdict(w, b, a, amount) is Ok);
    lemma_after_transfer_well_formed(w, b, a, amount);
    lemma_balances_after_transfer(w, b, a, amount, a);
    lemma_balances_after_transfer(w, b, a, amount, b);
}

/// Two transfers that share no account can be committed in either order:
/// whether each passes validation does not depend on the other, and the
/// balances after both are the same.
pub proof fn law_disjoint_transfers_commute(
    v: LedgerView,
    a: Seq<char>,
    b: Seq<char>,
    x: int,
    c: Seq<char>,
    d: Seq<char>,
    y: int,
    id: Seq<char>,
)
    requires
        well_formed(v),
        transfer_verdict(v, a, b, x) is Ok,
        transfer_verdict(v, c, d, y) is Ok,
        a != c,
        a != d,
        b != c,
        b != d,
    ensures
        transfer_verdict(after_transfer(v, a, b, x), c, d, y) is Ok,
        transfer_verdict(after_transfer(v, c, d, y), a, b, x) is Ok,
        balance_of(after_transfer(after_transfer(v, a, b, x), c, d, y).accounts, id) == balance_of(
            after_transfer(after_transfer(v, c, d, y), a, b, x).accounts,
            id,
        ),
{
    let first = after_transfer(v, a, b, x);
    let second = after_transfer(v, c, d, y);
    assert(has_account(v.accounts, a));
    assert(has_account(v.accounts, c));
    lemma_after_transfer_well_formed(v, a, b, x);
    lemma_after_transfer_well_formed(v, c, d, y);
    lemma_balances_after_transfer(v, a, b, x, c);
    lemma_balances_after_transfer(v, a, b, x, d);
    lemma_balances_after_transfer(v, c, d, y, a);
    lemma_balances_after_transfer(v, c, d, y, b);
    assert(transfer_verdict(first, c, d, y) is Ok);
    assert(transfer_verdict(second, a, b, x) is Ok);
    lemma_balances_after_transfer(v, a, b, x, id);
    lemma_balances_after_transfer(v, c, d, y, id);
    lemma_balances_after_transfer(first, c, d, y, id);
    lemma_balances_after_transfer(second, a, b, x, id);
}

/// Creating an account keeps every balance reconciled with the history. The
/// new account holds the starting grant and has neither received nor sent
/// anything; every account that was there keeps its balance, its receipts and
/// its sends; the records that were there stay as they were, and the grant to
/// the new account comes after them.
pub proof fn law_account_creation(v: LedgerView, a: AccountView, id: Seq<char>)
    requires
        well_formed(v),
        v.accounts.len() < MAX_ACCOUNTS,
        !has_account(v.accounts, a.id),
        a.id != system_id(),
        a.balance == STARTING_GRANT,
    ensures
        well_formed(with_account(v, a)),
        has_account(with_account(v, a).accounts, a.id),
        balance_of(with_account(v, a).accounts, a.id) == STARTING_GRANT,
        received(with_account(v, a).history, a.id) == 0,
        sent(with_account(v, a).history, a.id) == 0,
        has_account(v.accounts, id) ==> has_account(with_account(v, a).accounts, id) && balance_of(
            with_account(v, a).accounts,
            id,
        ) == balance_of(v.accounts, id),
        has_account(v.accounts, id) ==> received(with_account(v, a).history, id) == received(
            v.history,
            id,
        ) && sent(with_account(v, a).history, id) == sent(v.history, id),
        with_account(v, a).history.len() == v.history.len() + 1,
        with_account(v, a).history.last() == genesis_record(a.id),
        forall|k: int|
            0 <= k < v.history.len() ==> #[trigger] with_account(v, a).history[k] == v.history[k],
{
    let w = with_account(v, a);
    let n = v.accounts.len() as int;
    lemma_with_account_well_formed(v, a);
    lemma_stranger_has_no_flows(v.accounts, v.history, a.id);
    lemma_flows_push(v.history, genesis_record(a.id), a.id);
    lemma_flows_push(v.history, genesis_record(a.id), id);
    assert(w.accounts[n] == a);
    lemma_index_of(w.accounts, n);
    if has_account(v.accounts, id) {
        let i = index_of(v.accounts, id);
        assert(w.accounts[i] == v.accounts[i]);
        lemma_index_of(v.accounts, i);
        lemma_index_of(w.accounts, i);
        assert(v.accounts[i].id != system_id());
    }
}

} // verus!
