use easy_remit::crypto::CryptoError;
use easy_remit::ledger::genesis;
use easy_remit::ledger::Account;
use easy_remit::ledger::Ledger;
use easy_remit::model::SYSTEM_SENDER;
use easy_remit::repository::RepoError;
use easy_remit::session::get_user_id;
use easy_remit::session::set_user_id;
use easy_remit::session::user_id_or_none;
use easy_remit::session::SessionContext;
use easy_remit::signup::SignupForm;
use easy_remit::store::StoreError;

const KEY: [u8; 16] = *b"mysecretkey12345";
const IV: [u8; 16] = *b"uniqueiv12345678";

fn filled(birth_date: &str) -> SignupForm {
    let mut form = SignupForm::new();
    form.set_email(String::from("ann@example.org"));
    form.set_passport(String::from("AB123456"));
    form.set_name(String::from("Ann"));
    form.set_birth_date(String::from(birth_date));
    form.set_password(String::from("123456"));
    form
}

fn error_of(r: Result<Account, RepoError>) -> Option<RepoError> {
    match r {
        Ok(_) => None,
        Err(e) => Some(e),
    }
}

#[test]
fn a_good_key_never_gives_the_key_error() {
    let mut ledger = Ledger::new();
    let r = ledger.create_account("a@b", "Ann", "AB123456", "06/04/2004", "123456", &KEY, &IV);
    assert_ne!(r, Err(RepoError::Crypto(CryptoError::InvalidKeyIvLength)));
    assert!(r.is_ok());
}

#[test]
fn a_bad_iv_gives_the_key_error_before_anything_else() {
    let mut ledger = Ledger::new();
    let r = ledger.create_account("a@b", "Ann", "AB123456", "06/04/2004", "123456", &KEY, &IV[..2]);
    assert_eq!(r, Err(RepoError::Crypto(CryptoError::InvalidKeyIvLength)));
    assert_eq!(ledger.account_count(), 0);
}

#[test]
fn plan_account_drafts_without_storing() {
    let ledger = Ledger::new();
    let draft = ledger
        .plan_account("a@b", "Ann", "AB123456", "06/04/2004", "123456", &KEY, &IV)
        .unwrap();
    assert_eq!(draft.id.len(), 12);
    assert_eq!(&draft.id[..2], "00");
    assert_eq!(draft.email, "a@b");
    assert_eq!(draft.display_name, "Ann");
    assert_ne!(draft.encrypted_passport, "AB123456");
    assert_ne!(draft.credential_hash, "123456");
    assert_eq!(draft.balance, 500);
    assert_eq!(ledger.account_count(), 0);
    assert_eq!(ledger.history_len(), 0);
    assert_eq!(
        error_of(ledger.plan_account("a@b", "Ann", "AB123456", "06/04/2004", "123456", &KEY[..1], &IV)),
        Some(RepoError::Crypto(CryptoError::InvalidKeyIvLength))
    );
}

#[test]
fn a_form_that_is_not_valid_is_not_accepted() {
    let ledger = Ledger::new();
    let empty = SignupForm::new();
    assert_eq!(error_of(ledger.plan_sign_up(&empty, &KEY, &IV)), Some(RepoError::NotAccepted));
    let mut form = filled("06/04/2004");
    form.set_password(String::from("12345"));
    assert_eq!(error_of(ledger.plan_sign_up(&form, &KEY, &IV)), Some(RepoError::NotAccepted));
    // The check of the form comes before the check of the key.
    assert_eq!(error_of(ledger.plan_sign_up(&form, &KEY[..1], &IV)), Some(RepoError::NotAccepted));
}

#[test]
fn a_birth_date_in_other_digits_is_valid_but_not_accepted() {
    let ledger = Ledger::new();
    let form = filled("٠٦/٠٤/٢٠٠٤");
    assert!(form.all_valid());
    assert_eq!(error_of(ledger.plan_sign_up(&form, &KEY, &IV)), Some(RepoError::NotAccepted));
}

#[test]
fn a_valid_form_with_a_bad_key_gives_the_key_error() {
    let ledger = Ledger::new();
    let form = filled("06/04/2004");
    assert_eq!(
        error_of(ledger.plan_sign_up(&form, &KEY, &[])),
        Some(RepoError::Crypto(CryptoError::InvalidKeyIvLength))
    );
}

#[test]
fn sign_up_goes_through_when_the_store_takes_the_account() {
    let mut ledger = Ledger::new();
    let mut session = SessionContext::new();
    let form = filled("31/12/1987");
    let draft = ledger.plan_sign_up(&form, &KEY, &IV).unwrap();
    let id = draft.id.clone();
    assert_eq!(&id[..2], "98");
    assert_eq!(ledger.account_count(), 0);
    assert_eq!(ledger.finish_sign_up(&mut session, draft, Ok(())), Ok(id.clone()));
    assert_eq!(get_user_id(&session), Some(id.clone()));
    assert_eq!(ledger.balance(&id), Some(500));
    assert_eq!(ledger.history_len(), 1);
    let summary = ledger.get_account_summary(&id, &KEY, &IV);
    assert_eq!(summary.display_name, "Ann");
    assert_eq!(summary.passport, "AB123456");
    assert_eq!(summary.birth_date, "31/12/1987");
    assert!(ledger.authenticate(&id, "ann@example.org", "123456"));
}

#[test]
fn a_store_failure_at_sign_up_changes_nothing() {
    let mut ledger = Ledger::new();
    let mut session = SessionContext::new();
    set_user_id(&mut session, String::from("earlier"));
    for failure in [StoreError::Other, StoreError::Busy] {
        let draft = ledger.plan_sign_up(&filled("06/04/2004"), &KEY, &IV).unwrap();
        let id = draft.id.clone();
        assert_eq!(
            ledger.finish_sign_up(&mut session, draft, Err(failure)),
            Err(RepoError::Store(failure))
        );
        assert!(!ledger.account_exists(&id));
        assert_eq!(ledger.account_count(), 0);
        assert_eq!(ledger.history_len(), 0);
        assert_eq!(get_user_id(&session), Some(String::from("earlier")));
    }
}

#[test]
fn an_identifier_taken_since_the_draft_is_a_duplicate() {
    let mut ledger = Ledger::new();
    let mut session = SessionContext::new();
    let first = ledger.plan_sign_up(&filled("06/04/2004"), &KEY, &IV).unwrap();
    let second = Account {
        id: first.id.clone(),
        email: String::from("other@example.org"),
        display_name: String::from("Other"),
        encrypted_passport: String::from("p"),
        encrypted_birth_date: String::from("b"),
        credential_hash: String::from("h"),
        balance: 500,
    };
    let id = first.id.clone();
    assert_eq!(ledger.finish_sign_up(&mut session, first, Ok(())), Ok(id.clone()));
    assert_eq!(ledger.finish_sign_up(&mut session, second, Ok(())), Err(RepoError::Duplicate));
    assert_eq!(ledger.account_count(), 1);
    assert_eq!(ledger.history_len(), 1);
    assert_eq!(ledger.name_of(&id), "Ann");
    assert_eq!(get_user_id(&session), Some(id));
}

#[test]
fn the_grant_names_the_bank_and_the_account() {
    let record = genesis("040000001234");
    assert_eq!(record.sender_id, SYSTEM_SENDER);
    assert_eq!(record.amount, 500);
    assert_eq!(record.receiver_id, "040000001234");
}

#[test]
fn nobody_signed_in_acts_as_null() {
    let mut session = SessionContext::new();
    assert_eq!(user_id_or_none(&session), "NULL");
    set_user_id(&mut session, String::from("040000001234"));
    assert_eq!(user_id_or_none(&session), "040000001234");
}

fn ids(values: &[&str]) -> Vec<String> {
    values.iter().map(|v| String::from(*v)).collect()
}

fn ledger_with(taken: &[&str]) -> Ledger {
    let mut ledger = Ledger::new();
    for id in taken {
        ledger
            .insert_account(
                String::from(*id),
                String::from("e"),
                format!("Holder {}", id),
                String::from("p"),
                String::from("b"),
                String::from("h"),
            )
            .unwrap();
    }
    ledger
}

#[test]
fn the_first_free_identifier_is_found_past_the_taken_ones() {
    let ledger = ledger_with(&["040000000001", "040000000002"]);
    assert_eq!(ledger.first_free(&ids(&["040000000003"])), Some(0));
    assert_eq!(ledger.first_free(&ids(&["040000000001", "040000000003"])), Some(1));
    assert_eq!(
        ledger.first_free(&ids(&["040000000002", "040000000001", "040000000002", "040000000009"])),
        Some(3)
    );
    assert_eq!(ledger.first_free(&ids(&["040000000003", "040000000004"])), Some(0));
}

#[test]
fn no_identifier_is_free_where_all_are_taken() {
    let ledger = ledger_with(&["040000000001", "040000000002"]);
    assert_eq!(ledger.first_free(&ids(&[])), None);
    assert_eq!(ledger.first_free(&ids(&["040000000001"])), None);
    assert_eq!(ledger.first_free(&ids(&["040000000002", "040000000001", "040000000002"])), None);
}

#[test]
fn the_grant_senders_identifier_is_never_free() {
    let ledger = Ledger::new();
    assert_eq!(ledger.first_free(&ids(&[SYSTEM_SENDER])), None);
    assert_eq!(ledger.first_free(&ids(&[SYSTEM_SENDER, "A"])), Some(1));
}

#[test]
fn a_taken_draw_leads_to_the_next_one() {
    let ledger = ledger_with(&["040000000001", "040000000002"]);
    let draft = ledger
        .draft_from(
            "ann@example.org",
            "Ann",
            String::from("sealed passport"),
            String::from("sealed birth date"),
            String::from("hash"),
            &ids(&["040000000001", "040000000002", "040000000007", "040000000008"]),
        )
        .unwrap();
    assert_eq!(draft.id, "040000000007");
    assert_eq!(draft.email, "ann@example.org");
    assert_eq!(draft.display_name, "Ann");
    assert_eq!(draft.encrypted_passport, "sealed passport");
    assert_eq!(draft.encrypted_birth_date, "sealed birth date");
    assert_eq!(draft.credential_hash, "hash");
    assert_eq!(draft.balance, 500);
    assert_eq!(ledger.account_count(), 2);
    assert_eq!(ledger.name_of("040000000001"), "Holder 040000000001");
}

#[test]
fn draws_that_are_all_taken_give_a_duplicate() {
    let ledger = ledger_with(&["040000000001", "040000000002"]);
    let r = ledger.draft_from(
        "e",
        "n",
        String::from("p"),
        String::from("b"),
        String::from("h"),
        &ids(&["040000000002", "040000000001"]),
    );
    assert_eq!(error_of(r), Some(RepoError::Duplicate));
    let none = ledger.draft_from(
        "e",
        "n",
        String::from("p"),
        String::from("b"),
        String::from("h"),
        &ids(&[]),
    );
    assert_eq!(error_of(none), Some(RepoError::Duplicate));
}

#[test]
fn as_many_identifiers_are_drawn_as_asked_for() {
    assert_eq!(easy_remit::repository::ID_ATTEMPTS, 8);
    let drawn = easy_remit::ident::draw_ids("06/04/2004", 8);
    assert_eq!(drawn.len(), 8);
    for id in &drawn {
        assert_eq!(id.len(), 12);
        assert_eq!(&id[..5], "00000");
    }
    assert_eq!(easy_remit::ident::draw_ids("06/04/2004", 0).len(), 0);
}
