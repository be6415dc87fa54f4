//! The history of an account as its holder sees it: one entry for each
//! record that names the account, with the name of the other party.

use crate::ledger::Ledger;
use crate::model::has_account;
use crate::model::index_of;
use crate::model::lemma_index_of;
use crate::model::system_id;
use crate::model::AccountView;
use crate::model::RecordView;
use crate::model::SYSTEM_SENDER;
use crate::text::same_text;
use crate::text::signed_decimal;
use crate::text::signed_decimal_text;
use vstd::prelude::*;

verus! {

/// One line of an account's history as its holder sees it.
#[derive(Debug)]
pub struct HistoryEntry {
    /// The name of the other party.
    pub counterparty: String,
    /// Whether the holder sent the amount (`true`) or received it.
    pub outgoing: bool,
    pub amount: i64,
}

/// The mathematical content of a `HistoryEntry`.
pub struct EntryView {
    pub counterparty: Seq<char>,
    pub outgoing: bool,
    pub amount: int,
}

impl View for HistoryEntry {
    type V = EntryView;

    open spec fn view(&self) -> EntryView {
        EntryView {
            counterparty: self.counterparty@,
            outgoing: self.outgoing,
            amount: self.amount as int,
        }
    }
}

/// The views of a list of entries.
pub open spec fn entry_views(entries: Seq<HistoryEntry>) -> Seq<EntryView> {
    entries.map_values(|e: HistoryEntry| e@)
}

/// The name shown for `id`.
pub open spec fn shown_name(accounts: Seq<AccountView>, id: Seq<char>) -> Seq<char> {
    if has_account(accounts, id) {
        accounts[index_of(accounts, id)].display_name
    } else {
        system_id()
    }
}

/// The entry that the record `row` makes in the history of `id`. A record
/// that `id` sent shows the receiver; any other shows the sender.
pub open spec fn entry_for(accounts: Seq<AccountView>, row: RecordView, id: Seq<char>) -> EntryView {
    if row.sender_id == id {
        EntryView {
            counterparty: shown_name(accounts, row.receiver_id),
            outgoing: true,
            amount: row.amount,
        }
    } else {
        EntryView {
            counterparty: shown_name(accounts, row.sender_id),
            outgoing: false,
            amount: row.amount,
        }
    }
}

/// The history of `id`: the entries of the records that name it, in the
/// order of the history.
pub open spec fn entries_for(
    accounts: Seq<AccountView>,
    history: Seq<RecordView>,
    id: Seq<char>,
) -> Seq<EntryView>
    decreases history.len(),
{
    if history.len() == 0 {
        Seq::empty()
    } else {
        let earlier = entries_for(accounts, history.drop_last(), id);
        let row = history.last();
        if row.sender_id == id || row.receiver_id == id {
            earlier.push(entry_for(accounts, row, id))
        } else {
            earlier
        }
    }
}

/// The amount of an entry as it is displayed: a sign, a dollar sign, and the
/// amount in decimal.
pub open spec fn amount_label(entry: EntryView) -> Seq<char> {
    (if entry.outgoing {
        seq!['-', '$']
    } else {
        seq!['+', '$']
    }) + signed_decimal(entry.amount)
}

impl HistoryEntry {
    /// The amount as it is displayed, such as `-$200` or `+$500`.
    pub fn amount_text(&self) -> (label: String)
        ensures
            label@ == amount_label(self@),
    {
        proof {
            reveal_strlit("-$");
            reveal_strlit("+$");
        }
        let mut label = if self.outgoing {
            String::from_str("-$")
        } else {
            String::from_str("+$")
        };
        let digits = signed_decimal_text(self.amount);
        label.append(digits.as_str());
        assert(label@ =~= amount_label(self@));
        label
    }
}

impl Ledger {
    /// The name to show for `id`: the account's display name, or the grant
    /// sender's name where `id` is no account.
    pub fn name_of(&self, id: &str) -> (name: String)
        requires
            self.wf(),
        ensures
            name@ == shown_name(self@.accounts, id@),
    {
        match self.find(id) {
            Some(i) => {
                proof {
                    lemma_index_of(self@.accounts, i as int);
                }
                self.at(i).display_name.clone()
            },
            None => String::from_str(SYSTEM_SENDER),
        }
    }

    /// The history as the holder of the account `id` sees it: one entry for
    /// each record that names `id` as sender or receiver, oldest first.
    pub fn history_for(&self, id: &str) -> (entries: Vec<HistoryEntry>)
        requires
            self.wf(),
        ensures
            entry_views(entries@) == entries_for(self@.accounts, self@.history, id@),
    {
        let mut entries: Vec<HistoryEntry> = Vec::new();
        let mut k: usize = 0;
        assert(self@.history.take(0) =~= Seq::<RecordView>::empty());
        while k < self.history_len()
            invariant
                self.wf(),
                k <= self@.history.len(),
                entry_views(entries@) == entries_for(
                    self@.accounts,
                    self@.history.take(k as int),
                    id@,
                ),
            decreases self@.history.len() - k,
        {
            let row = self.row(k);
            proof {
                assert(self@.history.take(k + 1).drop_last() =~= self@.history.take(k as int));
                assert(self@.history.take(k + 1).last() == row@);
            }
            let ghost shorter = entries@;
            if same_text(row.sender_id.as_str(), id) {
                let entry = HistoryEntry {
                    counterparty: self.name_of(row.receiver_id.as_str()),
                    outgoing: true,
                    amount: row.amount,
                };
                entries.push(entry);
                assert(entry_views(entries@) =~= entry_views(shorter).push(entry@));
            } else if same_text(row.receiver_id.as_str(), id) {
                let entry = HistoryEntry {
                    counterparty: self.name_of(row.sender_id.as_str()),
                    outgoing: false,
                    amount: row.amount,
                };
                entries.push(entry);
                assert(entry_views(entries@) =~= entry_views(shorter).push(entry@));
            }
            k += 1;
        }
        assert(self@.history.take(k as int) =~= self@.history);
        entries
    }
}

} // verus!
