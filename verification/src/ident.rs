//! Account identifiers: two characters taken from the birth date, followed by
//! a random number padded with zeros to a fixed width.

use crate::text::decimal;
use crate::text::zero_padded;
use crate::text::zero_padded_text;
use rand::Rng;
use vstd::prelude::*;

verus! {

/// The width of the numeric part of an identifier.
pub const SUFFIX_WIDTH: usize = 10;

/// The numeric part of an identifier is drawn below this bound.
pub const SUFFIX_BOUND: u64 = 10_000_000;

/// The length of every generated identifier.
pub const ID_LEN: usize = 12;

/// The part of a birth date that an identifier starts with: the characters at
/// positions 7 and 8. In `dd/mm/yyyy` those are the two middle digits of the
/// year.
pub open spec fn year_fragment(birth_date: Seq<char>) -> Seq<char> {
    birth_date.subrange(7, 9)
}

/// The identifier made of the year fragment of `birth_date` and `suffix`.
pub open spec fn account_id(birth_date: Seq<char>, suffix: nat) -> Seq<char> {
    year_fragment(birth_date) + zero_padded(suffix, SUFFIX_WIDTH as nat)
}

/// Trusted: `rand::Rng::gen_range` on `rand::thread_rng()` with the range
/// `0..bound`. The value lies in that range. The crate panics on an empty
/// range; the precondition leaves it out.
#[verifier::external_body]
fn random_below(bound: u64) -> (r: u64)
    requires
        bound > 0,
    ensures
        r < bound,
{
    rand::thread_rng().gen_range(0..bound)
}

/// A number below the suffix bound has at most seven digits.
pub proof fn lemma_suffix_digits(n: nat)
    requires
        n < SUFFIX_BOUND,
    ensures
        1 <= decimal(n).len() <= 7,
{
    reveal_with_fuel(decimal, 8);
}

/// Every identifier with a suffix below the bound has the same length.
pub proof fn lemma_id_length(birth_date: Seq<char>, suffix: nat)
    requires
        birth_date.len() >= 9,
        suffix < SUFFIX_BOUND,
    ensures
        account_id(birth_date, suffix).len() == ID_LEN,
{
    lemma_suffix_digits(suffix);
}

/// The identifier for `birth_date` with the numeric part `suffix`.
pub fn account_id_from(birth_date: &str, suffix: u64) -> (id: String)
    requires
        birth_date.is_ascii(),
        birth_date@.len() >= 9,
    ensures
        id@ == account_id(birth_date@, suffix as nat),
{
    let year = birth_date.substring_ascii(7, 9);
    let mut id = String::from_str(year);
    let digits = zero_padded_text(suffix, SUFFIX_WIDTH);
    id.append(digits.as_str());
    id
}

/// A fresh identifier for an account whose holder was born on `birth_date`.
///
/// The numeric part is random, so two calls differ, and nothing rules out that
/// an identifier comes twice: whoever stores it has to detect the collision
/// and ask again.
pub fn generate_account_id(birth_date: &str) -> (id: String)
    requires
        birth_date.is_ascii(),
        birth_date@.len() >= 9,
    ensures
        exists|suffix: nat| suffix < SUFFIX_BOUND && id@ == #[trigger] account_id(birth_date@, suffix),
        id@.len() == ID_LEN,
{
    let suffix = random_below(SUFFIX_BOUND);
    proof {
        lemma_id_length(birth_date@, suffix as nat);
    }
    account_id_from(birth_date, suffix)
}

/// Whether `id` is an identifier for `birth_date`: its year fragment followed
/// by some number below the bound.
pub open spec fn is_id_for(birth_date: Seq<char>, id: Seq<char>) -> bool {
    exists|suffix: nat| suffix < SUFFIX_BOUND && id == #[trigger] account_id(birth_date, suffix)
}

/// Draws `count` identifiers for an account whose holder was born on
/// `birth_date`, each as `generate_account_id` draws it.
pub fn draw_ids(birth_date: &str, count: u32) -> (ids: Vec<String>)
    requires
        birth_date.is_ascii(),
        birth_date@.len() >= 9,
    ensures
        ids@.len() == count,
        forall|i: int| 0 <= i < ids@.len() ==> is_id_for(birth_date@, (#[trigger] ids@[i])@),
        forall|i: int| 0 <= i < ids@.len() ==> (#[trigger] ids@[i])@.len() == ID_LEN,
{
    let mut ids: Vec<String> = Vec::new();
    let mut drawn: u32 = 0;
    while drawn < count
        invariant
            birth_date.is_ascii(),
            birth_date@.len() >= 9,
            drawn <= count,
            ids@.len() == drawn,
            forall|i: int| 0 <= i < ids@.len() ==> is_id_for(birth_date@, (#[trigger] ids@[i])@),
            forall|i: int| 0 <= i < ids@.len() ==> (#[trigger] ids@[i])@.len() == ID_LEN,
        decreases count - drawn,
    {
        let id = generate_account_id(birth_date);
        ids.push(id);
        drawn += 1;
    }
    ids
}

} // verus!
