//! The amount as it is typed on the keypad of the transfer screen.

use vstd::prelude::*;

verus! {

/// The key that deletes the last character.
pub const DELETE_KEY: char = 'X';

/// Whether `c` is a decimal digit.
pub open spec fn is_digit(c: char) -> bool {
    '0' <= c <= '9'
}

/// Whether `c` is a key of the keypad that types a character.
pub open spec fn is_typing_key(c: char) -> bool {
    is_digit(c) || c == '.'
}

/// The number that a digit stands for.
pub open spec fn digit_value(c: char) -> int {
    c as int - '0' as int
}

/// The number that a sequence of digits stands for.
pub open spec fn digits_value(text: Seq<char>) -> int
    decreases text.len(),
{
    if text.len() == 0 {
        0
    } else {
        digits_value(text.drop_last()) * 10 + digit_value(text.last())
    }
}

/// What the display shows after `key` was pressed while it showed `text`.
/// The delete key removes the last character, and an empty display shows
/// `0`. A typing key replaces a lone `0` and is appended to anything else.
pub open spec fn after_key(text: Seq<char>, key: char) -> Seq<char> {
    if key == DELETE_KEY {
        if text.len() <= 1 {
            seq!['0']
        } else {
            text.drop_last()
        }
    } else if text[0] == '0' {
        text.drop_last().push(key)
    } else {
        text.push(key)
    }
}

/// What can stand on the display: at least one character, typing keys only,
/// and a leading `0` only alone.
pub open spec fn displayable(text: Seq<char>) -> bool {
    &&& text.len() > 0
    &&& forall|i: int| 0 <= i < text.len() ==> is_typing_key(#[trigger] text[i])
    &&& text[0] == '0' ==> text.len() == 1
}

/// The amount that the display stands for: none while it holds a point, and
/// none where the number does not fit in a signed 64-bit integer.
pub open spec fn entered_amount(text: Seq<char>) -> Option<int> {
    if exists|i: int| 0 <= i < text.len() && !is_digit(#[trigger] text[i]) {
        None
    } else if digits_value(text) > i64::MAX {
        None
    } else {
        Some(digits_value(text))
    }
}

/// Whether `key` is a key of the keypad: a digit, the point, or the delete
/// key.
pub fn is_key(key: char) -> (ok: bool)
    ensures
        ok == (is_typing_key(key) || key == DELETE_KEY),
{
    (key >= '0' && key <= '9') || key == '.' || key == DELETE_KEY
}

/// The display of the keypad.
#[derive(Debug)]
pub struct AmountEntry {
    pub keys: Vec<char>,
}

impl View for AmountEntry {
    type V = Seq<char>;

    open spec fn view(&self) -> Seq<char> {
        self.keys@
    }
}

impl AmountEntry {
    /// A display that shows `0`.
    pub fn new() -> (entry: AmountEntry)
        ensures
            entry@ == seq!['0'],
            displayable(entry@),
    {
        let mut keys: Vec<char> = Vec::new();
        keys.push('0');
        assert(keys@ =~= seq!['0']);
        AmountEntry { keys }
    }

    /// Takes one key of the keypad.
    pub fn press(&mut self, key: char)
        requires
            displayable(old(self)@),
            is_typing_key(key) || key == DELETE_KEY,
        ensures
            final(self)@ == after_key(old(self)@, key),
            displayable(final(self)@),
    {
        if key == DELETE_KEY {
            self.keys.pop();
            if self.keys.len() == 0 {
                self.keys.push('0');
            }
        } else if self.keys[0] == '0' {
            self.keys.pop();
            self.keys.push(key);
        } else {
            self.keys.push(key);
        }
        assert(self@ =~= after_key(old(self)@, key));
    }

    /// The display as text.
    pub fn text(&self) -> (shown: String)
        requires
            displayable(self@),
        ensures
            shown@ == self@,
    {
        let mut shown = String::new();
        let mut i: usize = 0;
        proof {
            reveal_strlit(".");
        }
        while i < self.keys.len()
            invariant
                displayable(self@),
                i <= self.keys@.len(),
                shown@ == self@.take(i as int),
                "."@ == seq!['.'],
            decreases self.keys@.len() - i,
        {
            let c = self.keys[i];
            assert(is_typing_key(self@[i as int]));
            if c == '.' {
                shown.append(".");
            } else {
                shown.append(crate::text::digit_text((c as u32 - '0' as u32) as u64));
            }
            i += 1;
            assert(shown@ =~= self@.take(i as int));
        }
        assert(self@.take(i as int) =~= self@);
        shown
    }

    /// Whether the display holds what can stand on it.
    pub fn is_displayable(&self) -> (ok: bool)
        ensures
            ok == displayable(self@),
    {
        if self.keys.len() == 0 {
            return false;
        }
        if self.keys[0] == '0' && self.keys.len() != 1 {
            return false;
        }
        let mut i: usize = 0;
        while i < self.keys.len()
            invariant
                i <= self.keys@.len(),
                forall|k: int| 0 <= k < i ==> is_typing_key(#[trigger] self@[k]),
            decreases self.keys@.len() - i,
        {
            if !is_key(self.keys[i]) || self.keys[i] == DELETE_KEY {
                assert(!is_typing_key(self@[i as int]));
                return false;
            }
            i += 1;
        }
        true
    }

    /// Takes `key` if it is a key of the keypad and the display is in order,
    /// and says whether it did. Anything else leaves the display as it is.
    pub fn accept(&mut self, key: char) -> (taken: bool)
        ensures
            taken == (displayable(old(self)@) && (is_typing_key(key) || key == DELETE_KEY)),
            taken ==> final(self)@ == after_key(old(self)@, key) && displayable(final(self)@),
            !taken ==> final(self)@ == old(self)@,
    {
        if is_key(key) && self.is_displayable() {
            self.press(key);
            true
        } else {
            false
        }
    }

    /// The display as text, where it holds what can stand on it.
    pub fn display(&self) -> (shown: Option<String>)
        ensures
            shown is Some == displayable(self@),
            shown matches Some(text) ==> text@ == self@,
    {
        if self.is_displayable() {
            Some(self.text())
        } else {
            None
        }
    }

    /// The amount on the display, where it stands for one.
    pub fn value(&self) -> (amount: Option<i64>)
        ensures
            crate::session::opt_int(amount) == entered_amount(self@),
    {
        let mut total: i64 = 0;
        let mut i: usize = 0;
        assert(self@.take(0) =~= Seq::<char>::empty());
        while i < self.keys.len()
            invariant
                i <= self.keys@.len(),
                forall|k: int| 0 <= k < i ==> is_digit(#[trigger] self@[k]),
                total == digits_value(self@.take(i as int)),
                0 <= total,
            decreases self.keys@.len() - i,
        {
            let c = self.keys[i];
            if c < '0' || c > '9' {
                assert(!is_digit(self@[i as int]));
                return None;
            }
            let d: i64 = (c as u32 - '0' as u32) as i64;
            proof {
                assert(self@.take(i + 1).drop_last() =~= self@.take(i as int));
                assert(self@.take(i + 1).last() == c);
                assert(d == digit_value(c));
            }
            if total > (i64::MAX - d) / 10 {
                proof {
                    lemma_overflow_stays(self@, i + 1);
                }
                return None;
            }
            total = total * 10 + d;
            i += 1;
        }
        assert(self@.take(i as int) =~= self@);
        Some(total)
    }
}

/// Once a prefix of a sequence of digits stands for more than fits, so does
/// the whole sequence.
proof fn lemma_overflow_stays(text: Seq<char>, n: int)
    requires
        0 <= n <= text.len(),
        forall|i: int| 0 <= i < n ==> is_digit(#[trigger] text[i]),
        digits_value(text.take(n)) > i64::MAX,
    ensures
        (exists|i: int| 0 <= i < text.len() && !is_digit(#[trigger] text[i])) || digits_value(text)
            > i64::MAX,
    decreases text.len() - n,
{
    if n == text.len() {
        assert(text.take(n) =~= text);
    } else if !is_digit(text[n]) {
    } else {
        assert(text.take(n + 1).drop_last() =~= text.take(n));
        assert(text.take(n + 1).last() == text[n]);
        assert forall|i: int| 0 <= i < n + 1 implies is_digit(#[trigger] text[i]) by {}
        lemma_overflow_stays(text, n + 1);
    }
}

} // verus!
