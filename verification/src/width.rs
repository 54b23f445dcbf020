//! The number of terminal columns that characters and strings take.

use unicode_width::UnicodeWidthChar;
use unicode_width::UnicodeWidthStr;
use vstd::prelude::*;

verus! {

/// What `UnicodeWidthChar::width` returns for a character: the number of
/// columns it takes, or `None` for a control character.
pub uninterp spec fn char_width(c: char) -> Option<usize>;

/// The columns a character takes in a string: a control character takes none.
pub open spec fn char_cols(c: char) -> nat {
    match char_width(c) {
        Some(w) => w as nat,
        None => 0,
    }
}

/// The columns a string takes: the sum over its characters.
pub open spec fn str_width(s: Seq<char>) -> nat
    decreases s.len(),
{
    if s.len() == 0 {
        0
    } else {
        str_width(s.drop_last()) + char_cols(s.last())
    }
}

/// Calls `UnicodeWidthChar::width`, which looks the character up in a fixed
/// table: the result depends on the character alone.
#[verifier::external_body]
pub(crate) fn width_of_char(c: char) -> (r: Option<usize>)
    ensures
        r == char_width(c),
{
    UnicodeWidthChar::width(c)
}

/// Calls `UnicodeWidthStr::width`, which adds up the widths of the string's
/// characters and counts a control character as zero.
#[verifier::external_body]
pub(crate) fn width_of_str(s: &str) -> (r: usize)
    ensures
        r == str_width(s@),
{
    UnicodeWidthStr::width(s)
}

/// The columns a string takes.
pub fn width_of(s: &str) -> (r: usize)
    ensures
        r == str_width(s@),
{
    width_of_str(s)
}

/// The columns a character takes in a string.
pub fn cols_of_char(c: char) -> (r: usize)
    ensures
        r == char_cols(c),
{
    match width_of_char(c) {
        Some(w) => w,
        None => 0,
    }
}

/// The width of two strings put together is the sum of their widths.
pub proof fn lemma_str_width_concat(a: Seq<char>, b: Seq<char>)
    ensures
        str_width(a + b) == str_width(a) + str_width(b),
    decreases b.len(),
{
    if b.len() == 0 {
        assert(a + b =~= a);
    } else {
        lemma_str_width_concat(a, b.drop_last());
        assert((a + b).drop_last() =~= a + b.drop_last());
    }
}

/// The width of a string with one more character.
pub proof fn lemma_str_width_push(a: Seq<char>, c: char)
    ensures
        str_width(a.push(c)) == str_width(a) + char_cols(c),
{
    assert(a.push(c).drop_last() =~= a);
}

} // verus!
