//! Blankness of text fields.

use vstd::prelude::*;

verus! {

/// What `str::trim` leaves of a text: the text without its leading and
/// trailing Unicode whitespace.
pub uninterp spec fn trimmed(text: Seq<char>) -> Seq<char>;

/// A text is blank when nothing is left of it after trimming.
pub open spec fn blank(text: Seq<char>) -> bool {
    trimmed(text).len() == 0
}

/// Calls `str::trim`. The contract only names the slice that comes back;
/// nothing is proved of which characters std counts as whitespace.
#[verifier::external_body]
fn trim(text: &str) -> (inner: &str)
    ensures
        inner@ == trimmed(text@),
{
    text.trim()
}

/// Tells whether `text` is blank.
pub fn is_blank(text: &str) -> (b: bool)
    ensures
        b == blank(text@),
{
    let inner = trim(text);
    inner.unicode_len() == 0
}

} // verus!
