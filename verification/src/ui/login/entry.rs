//! What the user typed into a login page.

use crate::text::{is_white_space, trim, trim_leaves_the_middle, trimmed};
use vstd::prelude::*;

verus! {

/// What becomes of an entry.
#[derive(Debug)]
pub enum Entry {
    /// It is empty: show this hint.
    Hint { text: String },
    /// Send this to the server.
    Submit { text: String },
}

/// The mathematical value of an [`Entry`].
pub enum EntryView {
    Hint { text: Seq<char> },
    Submit { text: Seq<char> },
}

impl View for Entry {
    type V = EntryView;

    open spec fn view(&self) -> EntryView {
        match *self {
            Entry::Hint { text } => EntryView::Hint { text: text@ },
            Entry::Submit { text } => EntryView::Submit { text: text@ },
        }
    }
}

/// A text is sent if it is not empty, else a hint is shown.
pub open spec fn sent_or(text: Seq<char>, hint: Seq<char>) -> EntryView {
    if text.len() == 0 {
        EntryView::Hint { text: hint }
    } else {
        EntryView::Submit { text }
    }
}

fn submit(text: String, hint: &str) -> (r: Entry)
    ensures
        r@ == sent_or(text@, hint@),
{
    if text.as_str().is_empty() {
        Entry::Hint { text: hint.to_owned() }
    } else {
        Entry::Submit { text }
    }
}

/// What becomes of a phone number.
pub open spec fn phone_of(text: Seq<char>) -> EntryView {
    sent_or(trim(text), "Enter your phone number"@)
}

/// What becomes of a login code.
pub open spec fn code_of(text: Seq<char>) -> EntryView {
    sent_or(trim(text), "Enter the login code"@)
}

/// What becomes of a password.
pub open spec fn password_of(text: Seq<char>) -> EntryView {
    sent_or(text, "Enter your password"@)
}

/// The phone number; white space at its ends does not count.
pub fn phone(text: &str) -> (r: Entry)
    ensures
        r@ == phone_of(text@),
{
    submit(trimmed(text), "Enter your phone number")
}

/// The login code; white space at its ends does not count.
pub fn code(text: &str) -> (r: Entry)
    ensures
        r@ == code_of(text@),
{
    submit(trimmed(text), "Enter the login code")
}

/// The two-factor password, exactly as it was typed.
pub fn password(text: &str) -> (r: Entry)
    ensures
        r@ == password_of(text@),
{
    submit(text.to_owned(), "Enter your password")
}

/// A phone number and a code are sent without the white space around them, and
/// nothing is sent where there is nothing else.
pub proof fn entry_is_sent_trimmed(text: Seq<char>, a: int, b: int)
    requires
        0 <= a <= b <= text.len(),
        forall|i: int| 0 <= i < a ==> is_white_space(#[trigger] text[i]),
        forall|i: int| b <= i < text.len() ==> is_white_space(#[trigger] text[i]),
        a < b ==> !is_white_space(text[a]) && !is_white_space(text[b - 1]),
    ensures
        a < b ==> phone_of(text) == (EntryView::Submit { text: text.subrange(a, b) }),
        a < b ==> code_of(text) == (EntryView::Submit { text: text.subrange(a, b) }),
        a == b ==> phone_of(text) is Hint,
        a == b ==> code_of(text) is Hint,
{
    trim_leaves_the_middle(text, a, b);
}

/// A password is sent exactly as it was typed, white space and all; only an
/// empty one is not.
pub proof fn password_is_sent_as_typed(text: Seq<char>)
    ensures
        text.len() > 0 ==> password_of(text) == (EntryView::Submit { text }),
        text.len() == 0 ==> password_of(text) is Hint,
{
}

/// Each page asks for what it needs.
pub proof fn hints_differ()
    ensures
        phone_of(Seq::empty()) != code_of(Seq::empty()),
        code_of(Seq::empty()) != password_of(Seq::empty()),
        phone_of(Seq::empty()) != password_of(Seq::empty()),
{
    reveal_strlit("Enter your phone number");
    reveal_strlit("Enter the login code");
    reveal_strlit("Enter your password");
    assert(phone_of(Seq::empty())->Hint_text.len() == 23);
    assert(code_of(Seq::empty())->Hint_text.len() == 20);
    assert(password_of(Seq::empty())->Hint_text.len() == 19);
}

} // verus!
