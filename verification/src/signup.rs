//! The sign-up form: the five fields as they are typed, and for each whether
//! it has the required form. The account repository drafts an account only
//! from a form whose fields are all valid.

use vstd::prelude::*;

verus! {

/// A passport number: two capital letters, then six digits.
pub const PASSPORT_PATTERN: &'static str = "^[A-Z]{2}\\d{6}$";

/// A birth date: `dd/mm/yyyy`.
pub const BIRTH_DATE_PATTERN: &'static str = "^\\d{2}/\\d{2}/\\d{4}$";

/// A password: six digits.
pub const PASSWORD_PATTERN: &'static str = "^\\d{6}$";

/// What the regular-expression engine says of `text` under `pattern`: whether
/// the pattern matches somewhere in the text, or `None` where the pattern does
/// not compile.
pub uninterp spec fn regex_match(pattern: Seq<char>, text: Seq<char>) -> Option<bool>;

/// Trusted: `regex::Regex::new` on `pattern`, then `Regex::is_match` on `text`.
/// The result is the named verdict; `None` stands for the crate's error on a
/// pattern that does not compile.
#[verifier::external_body]
fn regex_is_match(pattern: &str, text: &str) -> (r: Option<bool>)
    ensures
        r == regex_match(pattern@, text@),
{
    match regex::Regex::new(pattern) {
        Ok(compiled) => Some(compiled.is_match(text)),
        Err(_) => None,
    }
}

/// Whether `pattern` compiles and matches `text`.
pub open spec fn matches(pattern: Seq<char>, text: Seq<char>) -> bool {
    regex_match(pattern, text) == Some(true)
}

/// A field counts as valid only where its pattern was understood and
/// matched.
pub fn accepted(verdict: Option<bool>) -> (ok: bool)
    ensures
        ok == (verdict == Some(true)),
{
    match verdict {
        Some(matched) => matched,
        None => false,
    }
}

/// Whether `text` holds the character `c`.
pub fn contains_char(text: &str, c: char) -> (found: bool)
    ensures
        found == text@.contains(c),
{
    let n = text.unicode_len();
    let mut i: usize = 0;
    while i < n
        invariant
            n == text@.len(),
            i <= n,
            forall|k: int| 0 <= k < i ==> text@[k] != c,
        decreases n - i,
    {
        if text.get_char(i) == c {
            return true;
        }
        i += 1;
    }
    false
}

/// An e-mail address is valid where it holds an `@`.
pub fn is_valid_email(value: &str) -> (ok: bool)
    ensures
        ok == value@.contains('@'),
{
    contains_char(value, '@')
}

/// A passport number is valid where `PASSPORT_PATTERN` matches it.
pub fn is_valid_passport(value: &str) -> (ok: bool)
    ensures
        ok == matches(PASSPORT_PATTERN@, value@),
{
    accepted(regex_is_match(PASSPORT_PATTERN, value))
}

/// A name is valid where it is not empty.
pub fn is_valid_name(value: &str) -> (ok: bool)
    ensures
        ok == (value@.len() > 0),
{
    !value.is_empty()
}

/// A birth date is valid where `BIRTH_DATE_PATTERN` matches it.
pub fn is_valid_birth_date(value: &str) -> (ok: bool)
    ensures
        ok == matches(BIRTH_DATE_PATTERN@, value@),
{
    accepted(regex_is_match(BIRTH_DATE_PATTERN, value))
}

/// A password is valid where `PASSWORD_PATTERN` matches it.
pub fn is_valid_password(value: &str) -> (ok: bool)
    ensures
        ok == matches(PASSWORD_PATTERN@, value@),
{
    accepted(regex_is_match(PASSWORD_PATTERN, value))
}

/// The fields of the sign-up form and, for each, whether its present value is
/// valid.
#[derive(Debug)]
pub struct SignupForm {
    pub email: String,
    pub passport: String,
    pub name: String,
    pub birth_date: String,
    pub password: String,
    pub email_ok: bool,
    pub passport_ok: bool,
    pub name_ok: bool,
    pub birth_date_ok: bool,
    pub password_ok: bool,
}

impl SignupForm {
    /// Whether all five fields are valid.
    pub open spec fn complete(&self) -> bool {
        self.email_ok && self.passport_ok && self.name_ok && self.birth_date_ok
            && self.password_ok
    }

    /// An empty form. No field of it is valid yet.
    pub fn new() -> (form: SignupForm)
        ensures
            form.email@.len() == 0,
            form.passport@.len() == 0,
            form.name@.len() == 0,
            form.birth_date@.len() == 0,
            form.password@.len() == 0,
            !form.email_ok,
            !form.passport_ok,
            !form.name_ok,
            !form.birth_date_ok,
            !form.password_ok,
    {
        SignupForm {
            email: String::new(),
            passport: String::new(),
            name: String::new(),
            birth_date: String::new(),
            password: String::new(),
            email_ok: false,
            passport_ok: false,
            name_ok: false,
            birth_date_ok: false,
            password_ok: false,
        }
    }

    /// Takes a new e-mail address and judges it.
    pub fn set_email(&mut self, value: String)
        ensures
            final(self).email@ == value@,
            final(self).email_ok == value@.contains('@'),
            others_kept(*old(self), *final(self), Field::Email),
    {
        self.email_ok = is_valid_email(value.as_str());
        self.email = value;
    }

    /// Takes a new passport number and judges it.
    pub fn set_passport(&mut self, value: String)
        ensures
            final(self).passport@ == value@,
            final(self).passport_ok == matches(PASSPORT_PATTERN@, value@),
            others_kept(*old(self), *final(self), Field::Passport),
    {
        self.passport_ok = is_valid_passport(value.as_str());
        self.passport = value;
    }

    /// Takes a new name and judges it.
    pub fn set_name(&mut self, value: String)
        ensures
            final(self).name@ == value@,
            final(self).name_ok == (value@.len() > 0),
            others_kept(*old(self), *final(self), Field::Name),
    {
        self.name_ok = is_valid_name(value.as_str());
        self.name = value;
    }

    /// Takes a new birth date and judges it.
    pub fn set_birth_date(&mut self, value: String)
        ensures
            final(self).birth_date@ == value@,
            final(self).birth_date_ok == matches(BIRTH_DATE_PATTERN@, value@),
            others_kept(*old(self), *final(self), Field::BirthDate),
    {
        self.birth_date_ok = is_valid_birth_date(value.as_str());
        self.birth_date = value;
    }

    /// Takes a new password and judges it.
    pub fn set_password(&mut self, value: String)
        ensures
            final(self).password@ == value@,
            final(self).password_ok == matches(PASSWORD_PATTERN@, value@),
            others_kept(*old(self), *final(self), Field::Password),
    {
        self.password_ok = is_valid_password(value.as_str());
        self.password = value;
    }

    /// Whether the form can be submitted.
    pub fn all_valid(&self) -> (ok: bool)
        ensures
            ok == self.complete(),
    {
        self.email_ok && self.passport_ok && self.name_ok && self.birth_date_ok
            && self.password_ok
    }
}

/// The fields of the form.
pub enum Field {
    Email,
    Passport,
    Name,
    BirthDate,
    Password,
}

/// Setting the field `changed` leaves every other field and its flag as they
/// were.
pub open spec fn others_kept(before: SignupForm, after: SignupForm, changed: Field) -> bool {
    &&& changed is Email || (after.email == before.email && after.email_ok == before.email_ok)
    &&& changed is Passport || (after.passport == before.passport && after.passport_ok
        == before.passport_ok)
    &&& changed is Name || (after.name == before.name && after.name_ok == before.name_ok)
    &&& changed is BirthDate || (after.birth_date == before.birth_date && after.birth_date_ok
        == before.birth_date_ok)
    &&& changed is Password || (after.password == before.password && after.password_ok
        == before.password_ok)
}

} // verus!
