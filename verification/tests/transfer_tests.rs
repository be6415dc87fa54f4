use easy_remit::ledger::Ledger;
use easy_remit::model::SYSTEM_SENDER;
use easy_remit::session::get_receiver_id;
use easy_remit::session::get_t_amount;
use easy_remit::session::get_user_id;
use easy_remit::session::set_receiver_id;
use easy_remit::session::set_t_amount;
use easy_remit::session::set_user_id;
use easy_remit::session::SessionContext;
use easy_remit::store::StoreError;
use easy_remit::transfer::TransferError;

fn open(ledger: &mut Ledger, id: &str) {
    ledger
        .insert_account(
            String::from(id),
            format!("{}@example.org", id),
            format!("Holder {}", id),
            String::from("p"),
            String::from("b"),
            String::from("h"),
        )
        .unwrap();
}

fn two_accounts() -> Ledger {
    let mut ledger = Ledger::new();
    open(&mut ledger, "A");
    open(&mut ledger, "B");
    ledger
}

/// The grant, plus what others sent to `id`, minus what `id` sent, summed
/// over the whole history.
fn flows(ledger: &Ledger, id: &str) -> i64 {
    let mut sum = 0;
    for k in 0..ledger.history_len() {
        let row = ledger.record(k).unwrap();
        if row.receiver_id == id {
            sum += row.amount;
        }
        if row.sender_id == id {
            sum -= row.amount;
        }
    }
    sum
}

fn staged(user: &str, receiver: &str, amount: i64) -> SessionContext {
    let mut session = SessionContext::new();
    set_user_id(&mut session, String::from(user));
    set_receiver_id(&mut session, String::from(receiver));
    set_t_amount(&mut session, amount);
    session
}

#[test]
fn scenario_two_grants_and_one_transfer() {
    let mut ledger = two_accounts();
    assert_eq!(ledger.transfer("A", "B", 200), Ok(()));
    assert_eq!(ledger.balance("A"), Some(300));
    assert_eq!(ledger.balance("B"), Some(700));
    assert_eq!(ledger.history_len(), 3);
    let first = ledger.record(0).unwrap();
    assert_eq!((first.sender_id.as_str(), first.amount, first.receiver_id.as_str()), (SYSTEM_SENDER, 500, "A"));
    let second = ledger.record(1).unwrap();
    assert_eq!((second.sender_id.as_str(), second.amount, second.receiver_id.as_str()), (SYSTEM_SENDER, 500, "B"));
    let third = ledger.record(2).unwrap();
    assert_eq!((third.sender_id.as_str(), third.amount, third.receiver_id.as_str()), ("A", 200, "B"));
}

#[test]
fn scenario_staged_transfer_beyond_the_balance_is_rejected() {
    let mut ledger = two_accounts();
    ledger.transfer("A", "B", 400).unwrap();
    assert_eq!(ledger.balance("A"), Some(100));
    let rows = ledger.history_len();
    let mut session = staged("A", "B", 150);
    assert_eq!(
        ledger.commit_staged_transfer(&mut session, "A"),
        Err(TransferError::InsufficientFunds)
    );
    assert_eq!(ledger.balance("A"), Some(100));
    assert_eq!(ledger.balance("B"), Some(900));
    assert_eq!(ledger.history_len(), rows);
    assert_eq!(get_receiver_id(&session), Some(String::from("B")));
    assert_eq!(get_t_amount(&session), Some(150));
}

#[test]
fn rejected_for_insufficient_funds_one_above_the_balance() {
    let mut ledger = two_accounts();
    assert_eq!(ledger.validate_transfer("A", "B", 501), Err(TransferError::InsufficientFunds));
    assert_eq!(ledger.transfer("A", "B", 501), Err(TransferError::InsufficientFunds));
    assert_eq!(ledger.transfer("A", "B", i64::MAX), Err(TransferError::InsufficientFunds));
    assert_eq!(ledger.balance("A"), Some(500));
    assert_eq!(ledger.balance("B"), Some(500));
    assert_eq!(ledger.history_len(), 2);
}

#[test]
fn the_whole_balance_can_be_sent() {
    let mut ledger = two_accounts();
    assert_eq!(ledger.validate_transfer("A", "B", 500), Ok(()));
    assert_eq!(ledger.transfer("A", "B", 500), Ok(()));
    assert_eq!(ledger.balance("A"), Some(0));
    assert_eq!(ledger.balance("B"), Some(1000));
    assert_eq!(ledger.transfer("A", "B", 1), Err(TransferError::InsufficientFunds));
}

#[test]
fn self_transfer_is_rejected_whatever_the_balance() {
    let mut ledger = two_accounts();
    assert_eq!(ledger.transfer("A", "A", 1), Err(TransferError::SelfTransfer));
    assert_eq!(ledger.transfer("A", "A", 500), Err(TransferError::SelfTransfer));
    assert_eq!(ledger.transfer("A", "A", 9_999), Err(TransferError::SelfTransfer));
    assert_eq!(ledger.transfer("A", "A", 0), Err(TransferError::SelfTransfer));
    assert_eq!(ledger.balance("A"), Some(500));
    assert_eq!(ledger.history_len(), 2);
}

#[test]
fn unknown_receiver_is_rejected_first() {
    let mut ledger = two_accounts();
    assert_eq!(ledger.transfer("A", "C", 10), Err(TransferError::UnknownReceiver));
    assert_eq!(ledger.transfer("A", "", 10), Err(TransferError::UnknownReceiver));
    assert_eq!(ledger.transfer("C", "C", 10), Err(TransferError::UnknownReceiver));
    assert_eq!(ledger.transfer("A", "C", 0), Err(TransferError::UnknownReceiver));
    assert_eq!(ledger.transfer("A", SYSTEM_SENDER, 10), Err(TransferError::UnknownReceiver));
    assert_eq!(ledger.history_len(), 2);
}

#[test]
fn amounts_that_are_not_positive_are_rejected() {
    let mut ledger = two_accounts();
    assert_eq!(ledger.transfer("A", "B", 0), Err(TransferError::InvalidAmount));
    assert_eq!(ledger.transfer("A", "B", -1), Err(TransferError::InvalidAmount));
    assert_eq!(ledger.transfer("A", "B", i64::MIN), Err(TransferError::InvalidAmount));
    assert_eq!(ledger.balance("A"), Some(500));
    assert_eq!(ledger.balance("B"), Some(500));
}

#[test]
fn a_sender_that_is_no_account_has_nothing_to_send() {
    let mut ledger = two_accounts();
    assert_eq!(ledger.transfer("NULL", "B", 1), Err(TransferError::InsufficientFunds));
    assert_eq!(ledger.transfer(SYSTEM_SENDER, "B", 1), Err(TransferError::InsufficientFunds));
    assert_eq!(ledger.balance("B"), Some(500));
}

#[test]
fn the_smallest_amount_moves_one_unit() {
    let mut ledger = two_accounts();
    assert_eq!(ledger.transfer("B", "A", 1), Ok(()));
    assert_eq!(ledger.balance("A"), Some(501));
    assert_eq!(ledger.balance("B"), Some(499));
}

#[test]
fn a_transfer_touches_no_third_account() {
    let mut ledger = two_accounts();
    open(&mut ledger, "C");
    ledger.transfer("A", "B", 123).unwrap();
    assert_eq!(ledger.balance("C"), Some(500));
    assert_eq!(ledger.account_count(), 3);
}

#[test]
fn balances_reconcile_with_the_history_after_every_step() {
    let mut ledger = Ledger::new();
    open(&mut ledger, "A");
    open(&mut ledger, "B");
    open(&mut ledger, "C");
    let steps: Vec<(&str, &str, i64)> = vec![
        ("A", "B", 200),
        ("B", "C", 700),
        ("C", "A", 1200),
        ("A", "A", 5),
        ("B", "C", 1),
        ("A", "C", 1500),
        ("C", "B", 0),
        ("A", "B", 1),
    ];
    for (from, to, amount) in steps {
        let _ = ledger.transfer(from, to, amount);
        for id in ["A", "B", "C"] {
            let balance = ledger.balance(id).unwrap();
            assert!(balance >= 0);
            assert_eq!(balance, flows(&ledger, id));
        }
        let total: i64 = ["A", "B", "C"].iter().map(|id| ledger.balance(id).unwrap()).sum();
        assert_eq!(total, 1500);
    }
    assert_eq!(ledger.balance("A"), Some(0));
    assert_eq!(ledger.balance("B"), Some(0));
    assert_eq!(ledger.balance("C"), Some(1500));
    assert_eq!(ledger.history_len(), 3 + 4);
}

#[test]
fn opposite_transfers_leave_both_balances_as_they_were() {
    let mut ledger = two_accounts();
    ledger.transfer("A", "B", 120).unwrap();
    let (a, b) = (ledger.balance("A").unwrap(), ledger.balance("B").unwrap());
    assert_eq!(ledger.transfer("A", "B", 380), Ok(()));
    assert_eq!(ledger.transfer("B", "A", 380), Ok(()));
    assert_eq!(ledger.balance("A"), Some(a));
    assert_eq!(ledger.balance("B"), Some(b));
    assert_eq!(ledger.transfer("B", "A", 620), Ok(()));
    assert_eq!(ledger.transfer("A", "B", 620), Ok(()));
    assert_eq!(ledger.balance("A"), Some(a));
    assert_eq!(ledger.balance("B"), Some(b));
    assert_eq!(a + b, 1000);
}

#[test]
fn commit_clears_the_stage_and_cannot_be_repeated() {
    let mut ledger = two_accounts();
    let mut session = staged("A", "B", 200);
    assert_eq!(ledger.commit_staged_transfer(&mut session, "A"), Ok(()));
    assert_eq!(ledger.balance("A"), Some(300));
    assert_eq!(ledger.balance("B"), Some(700));
    assert_eq!(get_receiver_id(&session), None);
    assert_eq!(get_t_amount(&session), None);
    assert_eq!(get_user_id(&session), Some(String::from("A")));
    assert_eq!(
        ledger.commit_staged_transfer(&mut session, "A"),
        Err(TransferError::NothingStaged)
    );
    assert_eq!(ledger.balance("A"), Some(300));
    assert_eq!(ledger.balance("B"), Some(700));
    assert_eq!(ledger.history_len(), 3);
}

#[test]
fn commit_needs_both_receiver_and_amount() {
    let mut ledger = two_accounts();
    let mut only_receiver = SessionContext::new();
    set_receiver_id(&mut only_receiver, String::from("B"));
    assert_eq!(
        ledger.commit_staged_transfer(&mut only_receiver, "A"),
        Err(TransferError::NothingStaged)
    );
    let mut only_amount = SessionContext::new();
    set_t_amount(&mut only_amount, 10);
    assert_eq!(
        ledger.commit_staged_transfer(&mut only_amount, "A"),
        Err(TransferError::NothingStaged)
    );
    assert_eq!(ledger.history_len(), 2);
}

#[test]
fn commit_validates_against_the_ledger_as_it_is_now() {
    let mut ledger = two_accounts();
    let mut session = SessionContext::new();
    assert_eq!(ledger.stage_transfer(&mut session, "A", "B", 400), Ok(()));
    ledger.transfer("A", "B", 300).unwrap();
    assert_eq!(
        ledger.commit_staged_transfer(&mut session, "A"),
        Err(TransferError::InsufficientFunds)
    );
    assert_eq!(ledger.balance("A"), Some(200));
    assert_eq!(ledger.balance("B"), Some(800));
}

#[test]
fn stage_keeps_what_was_staged_when_it_rejects() {
    let ledger = two_accounts();
    let mut session = SessionContext::new();
    assert_eq!(ledger.stage_transfer(&mut session, "A", "B", 40), Ok(()));
    assert_eq!(get_receiver_id(&session), Some(String::from("B")));
    assert_eq!(get_t_amount(&session), Some(40));
    assert_eq!(
        ledger.stage_transfer(&mut session, "A", "C", 10),
        Err(TransferError::UnknownReceiver)
    );
    assert_eq!(ledger.stage_transfer(&mut session, "A", "A", 10), Err(TransferError::SelfTransfer));
    assert_eq!(ledger.stage_transfer(&mut session, "A", "B", 0), Err(TransferError::InvalidAmount));
    assert_eq!(
        ledger.stage_transfer(&mut session, "A", "B", 501),
        Err(TransferError::InsufficientFunds)
    );
    assert_eq!(get_receiver_id(&session), Some(String::from("B")));
    assert_eq!(get_t_amount(&session), Some(40));
}

#[test]
fn a_failed_store_fails_the_transfer_and_changes_nothing() {
    let mut ledger = two_accounts();
    let mut session = staged("A", "B", 200);
    assert_eq!(
        ledger.finish_staged_transfer(&mut session, "A", Err(StoreError::Busy)),
        Err(TransferError::TransferFailed)
    );
    assert_eq!(
        ledger.finish_staged_transfer(&mut session, "A", Err(StoreError::Other)),
        Err(TransferError::TransferFailed)
    );
    assert_eq!(ledger.balance("A"), Some(500));
    assert_eq!(ledger.balance("B"), Some(500));
    assert_eq!(ledger.history_len(), 2);
    assert_eq!(get_t_amount(&session), Some(200));
    assert_eq!(ledger.finish_staged_transfer(&mut session, "A", Ok(())), Ok(()));
    assert_eq!(ledger.balance("A"), Some(300));
    assert_eq!(ledger.balance("B"), Some(700));
    assert_eq!(get_t_amount(&session), None);
}

#[test]
fn transfers_between_disjoint_pairs_commute() {
    let mut one = Ledger::new();
    let mut other = Ledger::new();
    for id in ["A", "B", "C", "D"] {
        open(&mut one, id);
        open(&mut other, id);
    }
    assert_eq!(one.transfer("A", "B", 500), Ok(()));
    assert_eq!(one.transfer("C", "D", 17), Ok(()));
    assert_eq!(other.transfer("C", "D", 17), Ok(()));
    assert_eq!(other.transfer("A", "B", 500), Ok(()));
    for (id, expected) in [("A", 0), ("B", 1000), ("C", 483), ("D", 517)] {
        assert_eq!(one.balance(id), Some(expected));
        assert_eq!(other.balance(id), Some(expected));
    }
}

fn typed(keys: &str) -> easy_remit::keypad::AmountEntry {
    let mut entry = easy_remit::keypad::AmountEntry::new();
    for key in keys.chars() {
        assert!(entry.accept(key));
    }
    entry
}

#[test]
fn an_amount_that_is_no_number_is_an_invalid_amount() {
    let ledger = two_accounts();
    let mut session = staged("A", "B", 40);
    for keys in ["1.5", ".", "12.", "9223372036854775808", "99999999999999999999"] {
        let entry = typed(keys);
        assert_eq!(
            ledger.validate_entered_transfer("A", "B", &entry),
            Err(TransferError::InvalidAmount)
        );
        assert_eq!(
            ledger.stage_entered_transfer(&mut session, "A", "B", &entry),
            Err(TransferError::InvalidAmount)
        );
        // Whoever the receiver is.
        assert_eq!(
            ledger.validate_entered_transfer("A", "nobody", &entry),
            Err(TransferError::InvalidAmount)
        );
    }
    assert_eq!(get_receiver_id(&session), Some(String::from("B")));
    assert_eq!(get_t_amount(&session), Some(40));
    assert_eq!(ledger.balance("A"), Some(500));
    assert_eq!(ledger.history_len(), 2);
}

#[test]
fn an_entered_amount_is_validated_and_staged_as_its_number() {
    let ledger = two_accounts();
    let mut session = SessionContext::new();
    assert_eq!(ledger.validate_entered_transfer("A", "B", &typed("500")), Ok(()));
    assert_eq!(
        ledger.validate_entered_transfer("A", "B", &typed("501")),
        Err(TransferError::InsufficientFunds)
    );
    assert_eq!(
        ledger.validate_entered_transfer("A", "B", &typed("0")),
        Err(TransferError::InvalidAmount)
    );
    assert_eq!(
        ledger.validate_entered_transfer("A", "A", &typed("5")),
        Err(TransferError::SelfTransfer)
    );
    assert_eq!(
        ledger.validate_entered_transfer("A", "C", &typed("5")),
        Err(TransferError::UnknownReceiver)
    );
    assert_eq!(ledger.stage_entered_transfer(&mut session, "A", "B", &typed("150")), Ok(()));
    assert_eq!(get_receiver_id(&session), Some(String::from("B")));
    assert_eq!(get_t_amount(&session), Some(150));
}

#[test]
fn what_is_available_is_the_balance_or_nothing() {
    let mut ledger = two_accounts();
    ledger.transfer("A", "B", 120).unwrap();
    assert_eq!(ledger.available("A"), 380);
    assert_eq!(ledger.available("B"), 620);
    assert_eq!(ledger.available("NULL"), 0);
}

#[test]
fn a_plan_holds_the_record_and_the_balances_before_and_after() {
    let mut ledger = two_accounts();
    ledger.transfer("B", "A", 20).unwrap();
    let session = staged("A", "B", 200);
    let plan = ledger.plan_staged_transfer(&session, "A").unwrap();
    assert_eq!(plan.record.sender_id, "A");
    assert_eq!(plan.record.amount, 200);
    assert_eq!(plan.record.receiver_id, "B");
    assert_eq!(plan.sender_before, 520);
    assert_eq!(plan.sender_balance, 320);
    assert_eq!(plan.receiver_before, 480);
    assert_eq!(plan.receiver_balance, 680);
    assert_eq!(ledger.balance("A"), Some(520));
    assert_eq!(ledger.history_len(), 3);
    let nothing = SessionContext::new();
    assert!(matches!(
        ledger.plan_staged_transfer(&nothing, "A"),
        Err(TransferError::NothingStaged)
    ));
    let too_much = staged("A", "B", 521);
    assert!(matches!(
        ledger.plan_staged_transfer(&too_much, "A"),
        Err(TransferError::InsufficientFunds)
    ));
}
