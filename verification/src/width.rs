//! Display widths of characters and strings in terminal columns.

use vstd::prelude::*;

verus! {

/// What `unicode_width::UnicodeWidthChar::width` returns for a character.
pub uninterp spec fn unicode_char_width(c: char) -> Option<usize>;

/// What `unicode_width::UnicodeWidthStr::width` returns for a string.
pub uninterp spec fn unicode_str_width(s: Seq<char>) -> usize;

/// Columns taken by `c`, with control characters counted as zero.
pub open spec fn char_cols(c: char) -> nat {
    match unicode_char_width(c) {
        Some(w) => w as nat,
        None => 0,
    }
}

/// `UnicodeWidthChar::width` of the unicode-width crate.
/// Claims that the result is the named value `unicode_char_width(c)`, that
/// it is `None` for the C0 and C1 control characters, `Some(1)` for printable
/// ASCII, and never more than 3 (the crate's lookup tables hold widths 0 to 3).
#[verifier::external_body]
pub(crate) fn char_width(c: char) -> (w: Option<usize>)
    ensures
        w == unicode_char_width(c),
        (c as u32) < 0x20 || (0x7f <= (c as u32) && (c as u32) < 0xa0) ==> w is None,
        0x20 <= (c as u32) && (c as u32) < 0x7f ==> w == Some(1usize),
        w matches Some(n) ==> n <= 3,
{
    unicode_width::UnicodeWidthChar::width(c)
}

/// `UnicodeWidthStr::width` of the unicode-width crate.
/// Claims that the result is the named value `unicode_str_width(s@)`, and
/// that a string of printable ASCII is as wide as it is long (the crate
/// gives each character up to U+00A0 one column, outside emoji and line
/// ending sequences, which printable ASCII never starts).
#[verifier::external_body]
pub(crate) fn str_width(s: &str) -> (w: usize)
    ensures
        w == unicode_str_width(s@),
        (forall|i: int| 0 <= i < s@.len() ==> 0x20 <= (#[trigger] s@[i] as u32) < 0x7f) ==> w
            == s@.len(),
{
    unicode_width::UnicodeWidthStr::width(s)
}

/// Columns taken by `c` on screen, control characters counting as zero.
pub fn cols_of(c: char) -> (w: usize)
    ensures
        w == char_cols(c),
        w <= 3,
{
    match char_width(c) {
        Some(w) => w,
        None => 0,
    }
}

} // verus!
