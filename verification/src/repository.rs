//! The account repository: creating an account from what its holder typed,
//! signing a holder in, and showing a holder what the ledger keeps of them.

use crate::crypto::credential_accepted;
use crate::crypto::decrypt;
use crate::crypto::decrypted_bytes;
use crate::crypto::encrypt;
use crate::crypto::encryptable;
use crate::crypto::encrypted_text;
use crate::crypto::hash_credential;
use crate::crypto::hashable;
use crate::crypto::verify_credential;
use crate::crypto::CryptoError;
use crate::ident::draw_ids;
use crate::ident::is_id_for;
use crate::ledger::insert_verdict;
use crate::ledger::new_account;
use crate::ledger::Account;
use crate::ledger::Ledger;
use crate::model::has_account;
use crate::model::index_of;
use crate::model::system_id;
use crate::model::AccountView;
use crate::model::lemma_index_of;
use crate::model::with_account;
use crate::model::LedgerView;
use crate::model::MAX_ACCOUNTS;
use crate::model::SYSTEM_SENDER;
use crate::model::STARTING_GRANT;
use crate::session::SessionContext;
use crate::session::SessionView;
use crate::signup::SignupForm;
use crate::store::StoreError;
use crate::text::same_text;
use crate::text::text_from_utf8;
use crate::text::utf8_decoded;
use vstd::prelude::*;
use vstd::string::StringSliceAdditionalSpecFns;
use vstd::utf8::encode_utf8;
use vstd::utf8::is_ascii_chars;

verus! {

/// Why the account repository refused.
#[derive(Debug, Clone, Copy, PartialEq, Eq, Structural)]
pub enum RepoError {
    /// The identifier is taken. The caller draws another one.
    Duplicate,
    /// A field could not be protected.
    Crypto(CryptoError),
    /// The store did not take the account. The ledger is as it was.
    Store(StoreError),
    /// The sign-up cannot be taken: a field of the form is not valid, the
    /// birth date is not ASCII text of nine characters at least, a field is
    /// too long for the cipher, or the ledger is full.
    NotAccepted,
}

/// How often `create_account` draws an identifier before it gives up.
pub const ID_ATTEMPTS: u32 = 8;

/// The name shown for an id that is no account.
pub const MISSING_NAME: &'static str = "Null";

/// What is shown in place of a passport number that cannot be decrypted.
pub const PASSPORT_FALLBACK: &'static str = "AA000000";

/// What is shown in place of a birth date that cannot be decrypted.
pub const BIRTH_DATE_FALLBACK: &'static str = "00/00/0000";

/// What is shown in place of a decrypted field that is not text.
pub const NOT_TEXT: &'static str = "Invalid UTF-8 data";

/// What the holder of an account sees of it.
#[derive(Debug)]
pub struct AccountSummary {
    pub display_name: String,
    pub balance: i64,
    pub passport: String,
    pub birth_date: String,
}

/// The mathematical content of an `AccountSummary`.
pub struct SummaryView {
    pub display_name: Seq<char>,
    pub balance: int,
    pub passport: Seq<char>,
    pub birth_date: Seq<char>,
}

impl View for AccountSummary {
    type V = SummaryView;

    open spec fn view(&self) -> SummaryView {
        SummaryView {
            display_name: self.display_name@,
            balance: self.balance as int,
            passport: self.passport@,
            birth_date: self.birth_date@,
        }
    }
}

/// What `create_account` has done when it returns the identifier `id`: the
/// ledger has one more account and one more record, the account holds the
/// fields in their protected form and the starting grant, and `id` was free.
pub open spec fn created(
    before: LedgerView,
    after: LedgerView,
    id: Seq<char>,
    email: Seq<char>,
    name: Seq<char>,
    passport: Seq<u8>,
    birth_date: Seq<u8>,
    password: Seq<char>,
    key: Seq<u8>,
    iv: Seq<u8>,
) -> bool {
    let a = after.accounts.last();
    &&& after == with_account(before, a)
    &&& !has_account(before.accounts, id)
    &&& a.id == id
    &&& a.email == email
    &&& a.display_name == name
    &&& Ok::<Seq<char>, CryptoError>(a.encrypted_passport) == encrypted_text(passport, key, iv)
    &&& Ok::<Seq<char>, CryptoError>(a.encrypted_birth_date) == encrypted_text(birth_date, key, iv)
    &&& credential_accepted(password, a.credential_hash)
    &&& a.balance == STARTING_GRANT
}

/// The characters of a list of identifiers.
pub open spec fn id_views(ids: Seq<String>) -> Seq<Seq<char>> {
    ids.map_values(|id: String| id@)
}

/// The position of the first identifier from position `from` on that
/// `insert_account` would take: one that no account has and that is not the
/// grant sender's. `None` where every one of them is taken.
pub open spec fn first_free_from(v: LedgerView, ids: Seq<Seq<char>>, from: int) -> Option<int>
    decreases ids.len() - from,
{
    if from < 0 || from >= ids.len() {
        None
    } else if insert_verdict(v, ids[from]) is Ok {
        Some(from)
    } else {
        first_free_from(v, ids, from + 1)
    }
}

/// A position as a mathematical integer.
pub open spec fn position_of(found: Option<usize>) -> Option<int> {
    match found {
        Some(k) => Some(k as int),
        None => None,
    }
}

/// The draft that comes of protected fields and drawn identifiers: the
/// account under the first identifier that is free, with the starting grant;
/// `Duplicate` where every drawn identifier is taken.
pub open spec fn drafted_from(
    v: LedgerView,
    email: Seq<char>,
    name: Seq<char>,
    sealed_passport: Seq<char>,
    sealed_birth_date: Seq<char>,
    hash: Seq<char>,
    ids: Seq<Seq<char>>,
) -> Result<AccountView, RepoError> {
    match first_free_from(v, ids, 0) {
        Some(k) => Ok(new_account(ids[k], email, name, sealed_passport, sealed_birth_date, hash)),
        None => Err(RepoError::Duplicate),
    }
}

/// What `plan_account` has drafted when it returns the account `a`: an
/// account under an identifier that is free and made from the birth date,
/// with the fields in their protected form and the starting grant.
pub open spec fn drafted(
    v: LedgerView,
    a: AccountView,
    email: Seq<char>,
    name: Seq<char>,
    passport: Seq<u8>,
    birth_date: Seq<char>,
    password: Seq<char>,
    key: Seq<u8>,
    iv: Seq<u8>,
) -> bool {
    &&& !has_account(v.accounts, a.id)
    &&& a.id != system_id()
    &&& is_id_for(birth_date, a.id)
    &&& a.email == email
    &&& a.display_name == name
    &&& Ok::<Seq<char>, CryptoError>(a.encrypted_passport) == encrypted_text(passport, key, iv)
    &&& Ok::<Seq<char>, CryptoError>(a.encrypted_birth_date) == encrypted_text(
        encode_utf8(birth_date),
        key,
        iv,
    )
    &&& credential_accepted(password, a.credential_hash)
    &&& a.balance == STARTING_GRANT
}

/// The error that `plan_account` answers with before it draws anything, if
/// any: the key error for a key or IV of the wrong length, else the range
/// error for a passport number or a birth date that is too long to encrypt,
/// else the hashing error for a password that is too long to hash.
pub open spec fn sealing_error(
    passport: Seq<u8>,
    birth_date: Seq<char>,
    password: Seq<char>,
    key: Seq<u8>,
    iv: Seq<u8>,
) -> Option<RepoError> {
    if key.len() != 16 || iv.len() != 16 {
        Some(RepoError::Crypto(CryptoError::InvalidKeyIvLength))
    } else if !encryptable(passport.len() as int) || !encryptable(
        encode_utf8(birth_date).len() as int,
    ) {
        Some(RepoError::Crypto(CryptoError::TooLong))
    } else if !hashable(password) {
        Some(RepoError::Crypto(CryptoError::Hashing))
    } else {
        None
    }
}

/// Whether a sign-up can be taken: every field of the form is valid, the
/// ledger has room, and the birth date is ASCII text that holds the two
/// characters an identifier starts with.
pub open spec fn acceptable(v: LedgerView, form: SignupForm) -> bool {
    &&& form.complete()
    &&& v.accounts.len() < MAX_ACCOUNTS
    &&& is_ascii_chars(form.birth_date@)
    &&& 9 <= form.birth_date@.len()
}

/// The error that `plan_sign_up` answers with before it draws anything, if
/// any: `NotAccepted` for a form that cannot be taken, else what
/// `sealing_error` says of the fields of the form.
pub open spec fn sign_up_error(v: LedgerView, form: SignupForm, key: Seq<u8>, iv: Seq<u8>) -> Option<
    RepoError,
> {
    if !acceptable(v, form) {
        Some(RepoError::NotAccepted)
    } else {
        sealing_error(encode_utf8(form.passport@), form.birth_date@, form.password@, key, iv)
    }
}

/// What `finish_sign_up` answers once the store has taken the account: the
/// ledger must have room and the identifier must be free.
pub open spec fn finish_verdict(v: LedgerView, id: Seq<char>) -> Result<Seq<char>, RepoError> {
    if v.accounts.len() >= MAX_ACCOUNTS {
        Err(RepoError::NotAccepted)
    } else if insert_verdict(v, id) is Err {
        Err(RepoError::Duplicate)
    } else {
        Ok(id)
    }
}

/// The characters of an identifier result.
pub open spec fn id_of(r: Result<String, RepoError>) -> Result<Seq<char>, RepoError> {
    match r {
        Ok(id) => Ok(id@),
        Err(e) => Err(e),
    }
}

/// The view of a drafted account.
pub open spec fn draft_of(r: Result<Account, RepoError>) -> Result<AccountView, RepoError> {
    match r {
        Ok(a) => Ok(a@),
        Err(e) => Err(e),
    }
}

/// What the first free position is: it is in range, the identifier there is
/// free, and every identifier between `from` and it is taken.
pub proof fn lemma_first_free(v: LedgerView, ids: Seq<Seq<char>>, from: int)
    requires
        0 <= from,
    ensures
        first_free_from(v, ids, from) matches Some(k) ==> from <= k < ids.len() && insert_verdict(
            v,
            ids[k],
        ) is Ok && forall|j: int| from <= j < k ==> insert_verdict(v, #[trigger] ids[j]) is Err,
        first_free_from(v, ids, from) is None ==> forall|j: int|
            from <= j < ids.len() ==> insert_verdict(v, #[trigger] ids[j]) is Err,
    decreases ids.len() - from,
{
    if from < ids.len() && insert_verdict(v, ids[from]) is Err {
        lemma_first_free(v, ids, from + 1);
    }
}

/// What `authenticate` returns.
pub open spec fn authentic(
    v: LedgerView,
    id: Seq<char>,
    email: Seq<char>,
    password: Seq<char>,
) -> bool {
    has_account(v.accounts, id) && {
        let a = v.accounts[index_of(v.accounts, id)];
        a.email == email && credential_accepted(password, a.credential_hash)
    }
}

/// What is shown for a stored field: the decrypted text; `NOT_TEXT` where
/// the decrypted bytes are not UTF-8; `fallback` where decryption fails.
pub open spec fn shown(stored: Seq<char>, key: Seq<u8>, iv: Seq<u8>, fallback: Seq<char>) -> Seq<
    char,
> {
    match decrypted_bytes(stored, key, iv) {
        Err(_) => fallback,
        Ok(bytes) => match utf8_decoded(bytes) {
            Some(text) => text,
            None => NOT_TEXT@,
        },
    }
}

/// The summary for an id that is no account.
pub open spec fn missing_summary() -> SummaryView {
    SummaryView {
        display_name: MISSING_NAME@,
        balance: 0,
        passport: PASSPORT_FALLBACK@,
        birth_date: BIRTH_DATE_FALLBACK@,
    }
}

/// What `get_account_summary` returns.
pub open spec fn summary_of(v: LedgerView, id: Seq<char>, key: Seq<u8>, iv: Seq<u8>) -> SummaryView {
    if has_account(v.accounts, id) {
        let a = v.accounts[index_of(v.accounts, id)];
        SummaryView {
            display_name: a.display_name,
            balance: a.balance,
            passport: shown(a.encrypted_passport, key, iv, PASSPORT_FALLBACK@),
            birth_date: shown(a.encrypted_birth_date, key, iv, BIRTH_DATE_FALLBACK@),
        }
    } else {
        missing_summary()
    }
}

/// Decrypts a stored field for display.
pub fn shown_field(stored: &str, key: &[u8], iv: &[u8], fallback: &str) -> (text: String)
    ensures
        text@ == shown(stored@, key@, iv@, fallback@),
{
    match decrypt(stored, key, iv) {
        Err(_) => String::from_str(fallback),
        Ok(bytes) => match text_from_utf8(bytes) {
            Some(text) => text,
            None => String::from_str(NOT_TEXT),
        },
    }
}

impl Ledger {
    /// The position of the first of the identifiers `ids` that is free: that
    /// no account has and that is not the grant sender's.
    pub fn first_free(&self, ids: &Vec<String>) -> (found: Option<usize>)
        ensures
            position_of(found) == first_free_from(self@, id_views(ids@), 0),
            found matches Some(k) ==> k < ids@.len() && insert_verdict(self@, ids@[k as int]@) is Ok
                && forall|j: int| 0 <= j < k ==> insert_verdict(self@, (#[trigger] ids@[j])@) is Err,
            found is None ==> forall|j: int|
                0 <= j < ids@.len() ==> insert_verdict(self@, (#[trigger] ids@[j])@) is Err,
    {
        let ghost views = id_views(ids@);
        let mut k: usize = 0;
        while k < ids.len()
            invariant
                views == id_views(ids@),
                k <= ids@.len(),
                first_free_from(self@, views, 0) == first_free_from(self@, views, k as int),
                forall|j: int| 0 <= j < k ==> insert_verdict(self@, (#[trigger] ids@[j])@) is Err,
            decreases ids@.len() - k,
        {
            let id = ids[k].as_str();
            assert(views[k as int] == id@);
            if !same_text(id, SYSTEM_SENDER) && !self.account_exists(id) {
                return Some(k);
            }
            k += 1;
        }
        None
    }

    /// Drafts an account from protected fields and drawn identifiers: the
    /// account gets the first identifier that is free. Where every one is
    /// taken, the answer is `Duplicate`. The ledger is only read.
    pub fn draft_from(
        &self,
        email: &str,
        name: &str,
        sealed_passport: String,
        sealed_birth_date: String,
        hash: String,
        ids: &Vec<String>,
    ) -> (r: Result<Account, RepoError>)
        ensures
            draft_of(r) == drafted_from(
                self@,
                email@,
                name@,
                sealed_passport@,
                sealed_birth_date@,
                hash@,
                id_views(ids@),
            ),
    {
        match self.first_free(ids) {
            None => Err(RepoError::Duplicate),
            Some(k) => {
                assert(id_views(ids@)[k as int] == ids@[k as int]@);
                Ok(
                    Account {
                        id: ids[k].clone(),
                        email: String::from_str(email),
                        display_name: String::from_str(name),
                        encrypted_passport: sealed_passport,
                        encrypted_birth_date: sealed_birth_date,
                        credential_hash: hash,
                        balance: STARTING_GRANT,
                    },
                )
            },
        }
    }

    /// Drafts the account of a new holder without storing it.
    ///
    /// The passport number and the birth date are encrypted under `key` and
    /// `iv`, and the password is hashed; an error of these steps is decided
    /// before anything is drawn, and `sealing_error` says which. Then
    /// `ID_ATTEMPTS` identifiers are drawn at random from the birth date. What
    /// comes of the protected fields and the drawn identifiers is what
    /// `draft_from` says: the account gets the first identifier that is free,
    /// and `Duplicate` is the answer where every draw was taken. The ledger is
    /// only read.
    pub fn plan_account(
        &self,
        email: &str,
        name: &str,
        passport: &str,
        birth_date: &str,
        password: &str,
        key: &[u8],
        iv: &[u8],
    ) -> (r: Result<Account, RepoError>)
        requires
            birth_date.is_ascii(),
            9 <= birth_date@.len(),
        ensures
            r matches Ok(a) ==> drafted(
                self@,
                a@,
                email@,
                name@,
                passport.spec_bytes(),
                birth_date@,
                password@,
                key@,
                iv@,
            ),
            sealing_error(passport.spec_bytes(), birth_date@, password@, key@, iv@) matches Some(e)
                ==> draft_of(r) == Err::<AccountView, RepoError>(e),
            sealing_error(passport.spec_bytes(), birth_date@, password@, key@, iv@) is None ==> r
                is Ok || draft_of(r) == Err::<AccountView, RepoError>(RepoError::Duplicate),
    {
        let sealed_passport = match encrypt(passport.as_bytes(), key, iv) {
            Ok(text) => text,
            Err(e) => {
                return Err(RepoError::Crypto(e));
            },
        };
        let sealed_birth_date = match encrypt(birth_date.as_bytes(), key, iv) {
            Ok(text) => text,
            Err(e) => {
                return Err(RepoError::Crypto(e));
            },
        };
        let hash = match hash_credential(password) {
            Ok(hash) => hash,
            Err(e) => {
                return Err(RepoError::Crypto(e));
            },
        };
        let ids = draw_ids(birth_date, ID_ATTEMPTS);
        let r = self.draft_from(email, name, sealed_passport, sealed_birth_date, hash, &ids);
        proof {
            if r is Ok {
                let k = first_free_from(self@, id_views(ids@), 0)->0;
                lemma_first_free(self@, id_views(ids@), 0);
                assert(id_views(ids@)[k] == ids@[k]@);
            }
        }
        r
    }

    /// Creates an account for a new holder and returns its identifier.
    ///
    /// The account is drafted as `plan_account` says and stored at once. It
    /// starts with the grant, and the grant is the newest record of the
    /// history.
    ///
    /// The fields are taken as they come: checking their form is the caller's
    /// part. On any error the ledger is as it was.
    pub fn create_account(
        &mut self,
        email: &str,
        name: &str,
        passport: &str,
        birth_date: &str,
        password: &str,
        key: &[u8],
        iv: &[u8],
    ) -> (r: Result<String, RepoError>)
        requires
            old(self).wf(),
            old(self)@.accounts.len() < MAX_ACCOUNTS,
            birth_date.is_ascii(),
            9 <= birth_date@.len(),
        ensures
            final(self).wf(),
            r is Err ==> final(self)@ == old(self)@,
            r matches Ok(id) ==> created(
                old(self)@,
                final(self)@,
                id@,
                email@,
                name@,
                passport.spec_bytes(),
                birth_date.spec_bytes(),
                password@,
                key@,
                iv@,
            ),
            r matches Ok(id) ==> is_id_for(birth_date@, id@),
            sealing_error(passport.spec_bytes(), birth_date@, password@, key@, iv@) matches Some(e) ==> id_of(
                r,
            ) == Err::<Seq<char>, RepoError>(e),
            sealing_error(passport.spec_bytes(), birth_date@, password@, key@, iv@) is None ==> r
                is Ok || id_of(r) == Err::<Seq<char>, RepoError>(RepoError::Duplicate),
    {
        let draft = match self.plan_account(email, name, passport, birth_date, password, key, iv) {
            Ok(draft) => draft,
            Err(e) => {
                return Err(e);
            },
        };
        let id = draft.id.clone();
        let ghost a = draft@;
        let outcome = self.insert_account(
            draft.id,
            draft.email,
            draft.display_name,
            draft.encrypted_passport,
            draft.encrypted_birth_date,
            draft.credential_hash,
        );
        match outcome {
            Ok(()) => {
                assert(self@.accounts.last() == a);
                Ok(id)
            },
            // Not reached: the drafted identifier is free.
            Err(e) => Err(e),
        }
    }

    /// Drafts the account for a sign-up form without storing it.
    ///
    /// A form that cannot be taken is answered with `NotAccepted` and nothing
    /// is encrypted, hashed or drawn: see `acceptable`. Any other form is
    /// handed to `plan_account` field by field.
    pub fn plan_sign_up(&self, form: &SignupForm, key: &[u8], iv: &[u8]) -> (r: Result<
        Account,
        RepoError,
    >)
        ensures
            !acceptable(self@, *form) <==> draft_of(r) == Err::<AccountView, RepoError>(
                RepoError::NotAccepted,
            ),
            r matches Ok(a) ==> drafted(
                self@,
                a@,
                form.email@,
                form.name@,
                encode_utf8(form.passport@),
                form.birth_date@,
                form.password@,
                key@,
                iv@,
            ),
            sign_up_error(self@, *form, key@, iv@) matches Some(e) ==> draft_of(r) == Err::<
                AccountView,
                RepoError,
            >(e),
            sign_up_error(self@, *form, key@, iv@) is None ==> r is Ok || draft_of(r) == Err::<
                AccountView,
                RepoError,
            >(RepoError::Duplicate),
    {
        let birth_date = form.birth_date.as_str();
        if !form.all_valid() || self.account_count() as u64 >= MAX_ACCOUNTS
            || !birth_date.is_ascii() || birth_date.unicode_len() < 9 {
            return Err(RepoError::NotAccepted);
        }
        self.plan_account(
            form.email.as_str(),
            form.name.as_str(),
            form.passport.as_str(),
            birth_date,
            form.password.as_str(),
            key,
            iv,
        )
    }

    /// Concludes a sign-up whose account was handed to a store: `stored` is
    /// what the store answered.
    ///
    /// If the store failed, the answer is its error, and neither the ledger
    /// nor the session changes. If it succeeded, the account is stored in the
    /// ledger with its grant, the session names it as the signed-in account,
    /// and the answer is its identifier; unless the ledger is full or the
    /// identifier has been taken since the draft, which changes nothing
    /// either.
    pub fn finish_sign_up(
        &mut self,
        session: &mut SessionContext,
        account: Account,
        stored: Result<(), StoreError>,
    ) -> (r: Result<String, RepoError>)
        requires
            old(self).wf(),
        ensures
            final(self).wf(),
            stored matches Err(e) ==> id_of(r) == Err::<Seq<char>, RepoError>(RepoError::Store(e)),
            stored is Ok ==> id_of(r) == finish_verdict(old(self)@, account@.id),
            r is Err ==> final(self)@ == old(self)@ && final(session)@ == old(session)@,
            r is Ok ==> final(self)@ == with_account(
                old(self)@,
                new_account(
                    account@.id,
                    account@.email,
                    account@.display_name,
                    account@.encrypted_passport,
                    account@.encrypted_birth_date,
                    account@.credential_hash,
                ),
            ),
            r is Ok ==> final(session)@ == (SessionView {
                user_id: Some(account@.id),
                ..old(session)@
            }),
    {
        match stored {
            Err(e) => Err(RepoError::Store(e)),
            Ok(()) => {
                if self.account_count() as u64 >= MAX_ACCOUNTS {
                    return Err(RepoError::NotAccepted);
                }
                let id = account.id.clone();
                let outcome = self.insert_account(
                    account.id,
                    account.email,
                    account.display_name,
                    account.encrypted_passport,
                    account.encrypted_birth_date,
                    account.credential_hash,
                );
                match outcome {
                    Ok(()) => {
                        crate::session::set_user_id(session, id.clone());
                        Ok(id)
                    },
                    Err(e) => Err(e),
                }
            },
        }
    }

    /// Whether the account `id` exists, has the e-mail address `email`, and
    /// its stored hash accepts `password`. An unknown account, another
    /// address and a wrong password all give `false`, so that the answer does
    /// not tell which accounts exist.
    pub fn authenticate(&self, id: &str, email: &str, password: &str) -> (ok: bool)
        requires
            self.wf(),
        ensures
            ok == authentic(self@, id@, email@, password@),
    {
        match self.find(id) {
            None => false,
            Some(i) => {
                proof {
                    lemma_index_of(self@.accounts, i as int);
                }
                let account = self.at(i);
                same_text(account.email.as_str(), email) && verify_credential(
                    password,
                    account.credential_hash.as_str(),
                )
            },
        }
    }

    /// Signs the holder of the account `id` in: where `authenticate` accepts
    /// the three values, `session` names `id` as its account. Otherwise the
    /// session stays as it is.
    pub fn sign_in(
        &self,
        session: &mut crate::session::SessionContext,
        id: &str,
        email: &str,
        password: &str,
    ) -> (ok: bool)
        requires
            self.wf(),
        ensures
            ok == authentic(self@, id@, email@, password@),
            !ok ==> final(session)@ == old(session)@,
            ok ==> final(session)@ == (crate::session::SessionView {
                user_id: Some(id@),
                ..old(session)@
            }),
    {
        if self.authenticate(id, email, password) {
            crate::session::set_user_id(session, String::from_str(id));
            true
        } else {
            false
        }
    }

    /// What is shown of the account `id`: its name, its balance, and its
    /// passport number and birth date as far as they can be decrypted under
    /// `key` and `iv`. A field that cannot be decrypted is replaced by a fixed
    /// text, never by an error. For an id that is no account the summary is
    /// `missing_summary`.
    pub fn get_account_summary(&self, id: &str, key: &[u8], iv: &[u8]) -> (summary: AccountSummary)
        requires
            self.wf(),
        ensures
            summary@ == summary_of(self@, id@, key@, iv@),
    {
        match self.find(id) {
            None => {
                AccountSummary {
                    display_name: String::from_str(MISSING_NAME),
                    balance: 0,
                    passport: String::from_str(PASSPORT_FALLBACK),
                    birth_date: String::from_str(BIRTH_DATE_FALLBACK),
                }
            },
            Some(i) => {
                proof {
                    lemma_index_of(self@.accounts, i as int);
                }
                let account = self.at(i);
                AccountSummary {
                    display_name: account.display_name.clone(),
                    balance: account.balance,
                    passport: shown_field(
                        account.encrypted_passport.as_str(),
                        key,
                        iv,
                        PASSPORT_FALLBACK,
                    ),
                    birth_date: shown_field(
                        account.encrypted_birth_date.as_str(),
                        key,
                        iv,
                        BIRTH_DATE_FALLBACK,
                    ),
                }
            },
        }
    }
}

} // verus!
