use easy_remit::ledger::Account;
use easy_remit::ledger::Ledger;
use easy_remit::ledger::TransactionRecord;
use easy_remit::model::SYSTEM_SENDER;
use easy_remit::restore::restore;
use easy_remit::restore::RestoreError;

fn row(id: &str, balance: i64) -> Account {
    Account {
        id: String::from(id),
        email: format!("{}@example.org", id),
        display_name: format!("Holder {}", id),
        encrypted_passport: format!("passport of {}", id),
        encrypted_birth_date: format!("birth date of {}", id),
        credential_hash: format!("hash of {}", id),
        balance,
    }
}

fn record(sender: &str, amount: i64, receiver: &str) -> TransactionRecord {
    TransactionRecord {
        sender_id: String::from(sender),
        amount,
        receiver_id: String::from(receiver),
    }
}

fn error_of(r: Result<Ledger, RestoreError>) -> Option<RestoreError> {
    match r {
        Ok(_) => None,
        Err(e) => Some(e),
    }
}

#[test]
fn nothing_stored_gives_an_empty_ledger() {
    let ledger = restore(&Vec::new(), &Vec::new()).unwrap();
    assert_eq!(ledger.account_count(), 0);
    assert_eq!(ledger.history_len(), 0);
}

#[test]
fn a_stored_ledger_comes_back_as_it_was() {
    let rows = vec![row("A", 300), row("B", 700)];
    let history = vec![
        record(SYSTEM_SENDER, 500, "A"),
        record(SYSTEM_SENDER, 500, "B"),
        record("A", 200, "B"),
    ];
    let ledger = restore(&rows, &history).unwrap();
    assert_eq!(ledger.account_count(), 2);
    assert_eq!(ledger.history_len(), 3);
    assert_eq!(ledger.balance("A"), Some(300));
    assert_eq!(ledger.balance("B"), Some(700));
    let a = ledger.account("A").unwrap();
    assert_eq!(a.email, "A@example.org");
    assert_eq!(a.display_name, "Holder A");
    assert_eq!(a.encrypted_passport, "passport of A");
    assert_eq!(a.encrypted_birth_date, "birth date of A");
    assert_eq!(a.credential_hash, "hash of A");
    assert_eq!(a.balance, 300);
    let last = ledger.record(2).unwrap();
    assert_eq!((last.sender_id.as_str(), last.amount, last.receiver_id.as_str()), ("A", 200, "B"));
}

#[test]
fn what_was_written_can_be_restored() {
    let mut ledger = Ledger::new();
    for id in ["A", "B", "C"] {
        let r = row(id, 0);
        ledger
            .insert_account(
                r.id,
                r.email,
                r.display_name,
                r.encrypted_passport,
                r.encrypted_birth_date,
                r.credential_hash,
            )
            .unwrap();
    }
    ledger.transfer("A", "B", 120).unwrap();
    ledger.transfer("B", "C", 620).unwrap();
    ledger.transfer("C", "A", 1).unwrap();
    let rows: Vec<Account> = ["C", "A", "B"].iter().map(|id| ledger.account(id).unwrap()).collect();
    let history: Vec<TransactionRecord> =
        (0..ledger.history_len()).map(|k| ledger.record(k).unwrap()).collect();
    let again = restore(&rows, &history).unwrap();
    assert_eq!(again.account_count(), 3);
    assert_eq!(again.history_len(), 6);
    assert_eq!(again.balance("A"), Some(381));
    assert_eq!(again.balance("B"), Some(0));
    assert_eq!(again.balance("C"), Some(1119));
}

#[test]
fn a_balance_that_the_history_does_not_account_for_is_refused() {
    let history = vec![
        record(SYSTEM_SENDER, 500, "A"),
        record(SYSTEM_SENDER, 500, "B"),
        record("A", 200, "B"),
    ];
    // The record was written, the balances were not.
    let stale = vec![row("A", 500), row("B", 500)];
    assert_eq!(error_of(restore(&stale, &history)), Some(RestoreError::Accounts));
    let half = vec![row("A", 300), row("B", 500)];
    assert_eq!(error_of(restore(&half, &history)), Some(RestoreError::Accounts));
    let good = vec![row("A", 300), row("B", 700)];
    assert_eq!(error_of(restore(&good, &history)), None);
}

#[test]
fn a_row_without_a_grant_is_refused() {
    let rows = vec![row("A", 500), row("B", 500)];
    let history = vec![record(SYSTEM_SENDER, 500, "A")];
    assert_eq!(error_of(restore(&rows, &history)), Some(RestoreError::Accounts));
}

#[test]
fn a_row_that_comes_twice_is_refused() {
    let rows = vec![row("A", 500), row("A", 500)];
    let history = vec![record(SYSTEM_SENDER, 500, "A")];
    assert_eq!(error_of(restore(&rows, &history)), Some(RestoreError::Accounts));
}

#[test]
fn a_grant_without_a_row_is_refused() {
    let rows = vec![row("A", 500)];
    let history = vec![record(SYSTEM_SENDER, 500, "A"), record(SYSTEM_SENDER, 500, "B")];
    assert_eq!(error_of(restore(&rows, &history)), Some(RestoreError::History));
}

#[test]
fn a_second_grant_to_the_same_account_is_refused() {
    let rows = vec![row("A", 1000)];
    let history = vec![record(SYSTEM_SENDER, 500, "A"), record(SYSTEM_SENDER, 500, "A")];
    assert_eq!(error_of(restore(&rows, &history)), Some(RestoreError::History));
}

#[test]
fn a_grant_of_another_amount_is_refused() {
    let rows = vec![row("A", 600)];
    let history = vec![record(SYSTEM_SENDER, 600, "A")];
    assert_eq!(error_of(restore(&rows, &history)), Some(RestoreError::History));
}

#[test]
fn a_transfer_that_cannot_have_been_committed_is_refused() {
    let rows = vec![row("A", 500), row("B", 500)];
    let grants = vec![record(SYSTEM_SENDER, 500, "A"), record(SYSTEM_SENDER, 500, "B")];
    let cases = vec![
        record("A", 501, "B"),
        record("A", 0, "B"),
        record("A", -5, "B"),
        record("A", 5, "A"),
        record("A", 5, "C"),
        record("C", 5, "A"),
    ];
    for bad in cases {
        let mut history: Vec<TransactionRecord> =
            grants.iter().map(|r| record(&r.sender_id, r.amount, &r.receiver_id)).collect();
        history.push(bad);
        assert_eq!(error_of(restore(&rows, &history)), Some(RestoreError::History));
    }
}

#[test]
fn a_transfer_before_the_grant_of_its_receiver_is_refused() {
    let rows = vec![row("A", 300), row("B", 700)];
    let history = vec![
        record(SYSTEM_SENDER, 500, "A"),
        record("A", 200, "B"),
        record(SYSTEM_SENDER, 500, "B"),
    ];
    assert_eq!(error_of(restore(&rows, &history)), Some(RestoreError::History));
}
