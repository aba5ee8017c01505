//! What this library takes on trust from the `ropey` crate.
//!
//! Nothing here is proved. `ropey` is built without its `cr_lines` and
//! `unicode_lines` features, so the line feed is the only line break it knows.

use ropey::Rope;
use vstd::prelude::*;
use crate::lines::{is_line_start, line_count, line_start, line_stop, newlines_before, without_range};

verus! {

/// `ropey::Rope`, of which nothing is known but what the functions below
/// say.
#[verifier::external_type_specification]
#[verifier::external_body]
pub struct ExRope(ropey::Rope);

/// The characters that a rope holds, in order.
pub uninterp spec fn rope_chars(r: Rope) -> Seq<char>;

/// `Rope::new`: a rope that holds no character.
#[verifier::external_body]
pub(crate) fn rope_new() -> (r: Rope)
    ensures
        rope_chars(r) == Seq::<char>::empty(),
{
    Rope::new()
}

/// `Rope::from_str`: a rope that holds the characters of `text`.
#[verifier::external_body]
pub(crate) fn rope_from_str(text: &str) -> (r: Rope)
    ensures
        rope_chars(r) == text@,
{
    Rope::from_str(text)
}

/// `String::from(&Rope)`: the rope's characters as a string.
#[verifier::external_body]
pub(crate) fn rope_to_string(r: &Rope) -> (text: String)
    ensures
        text@ == rope_chars(*r),
{
    String::from(r)
}

/// `Rope::len_chars`: the number of characters.
#[verifier::external_body]
pub(crate) fn rope_len_chars(r: &Rope) -> (n: usize)
    ensures
        n == rope_chars(*r).len(),
{
    r.len_chars()
}

/// `Rope::len_lines`: the number of line breaks and one.
#[verifier::external_body]
pub(crate) fn rope_len_lines(r: &Rope) -> (n: usize)
    ensures
        n == line_count(rope_chars(*r)),
{
    r.len_lines()
}

/// `Rope::line_to_char`: the offset of the first character of a line. The
/// method panics behind one past the last line; this contract asks for a line
/// of the rope.
#[verifier::external_body]
pub(crate) fn rope_line_to_char(r: &Rope, line_idx: usize) -> (n: usize)
    requires
        line_idx < line_count(rope_chars(*r)),
    ensures
        is_line_start(rope_chars(*r), line_idx as int, n as int),
{
    r.line_to_char(line_idx)
}

/// `Rope::char_to_line`: the number of line breaks before an offset. The
/// method panics behind the rope's length.
#[verifier::external_body]
pub(crate) fn rope_char_to_line(r: &Rope, char_idx: usize) -> (n: usize)
    requires
        char_idx <= rope_chars(*r).len(),
    ensures
        n == newlines_before(rope_chars(*r), char_idx as int),
{
    r.char_to_line(char_idx)
}

/// `Rope::line`: the characters of a line, its line break included where it
/// has one. The method panics on a line that the rope does not have.
#[verifier::external_body]
pub(crate) fn rope_line(r: &Rope, line_idx: usize) -> (text: String)
    requires
        line_idx < line_count(rope_chars(*r)),
    ensures
        text@ == rope_chars(*r).subrange(
            line_start(rope_chars(*r), line_idx as int),
            line_stop(rope_chars(*r), line_idx as int),
        ),
{
    String::from(r.line(line_idx))
}

/// `Rope::insert_char`: the character enters at the offset, and what stood
/// there and behind moves one place on. The method panics behind the rope's
/// length.
#[verifier::external_body]
pub(crate) fn rope_insert_char(r: &mut Rope, char_idx: usize, ch: char)
    requires
        char_idx <= rope_chars(*old(r)).len(),
    ensures
        rope_chars(*final(r)) == rope_chars(*old(r)).insert(char_idx as int, ch),
{
    r.insert_char(char_idx, ch)
}

/// `Rope::remove`: the characters of the range leave, and what stood behind
/// them closes up. The method panics where the range runs backwards or ends
/// behind the rope's length.
#[verifier::external_body]
pub(crate) fn rope_remove(r: &mut Rope, start: usize, end: usize)
    requires
        start <= end <= rope_chars(*old(r)).len(),
    ensures
        rope_chars(*final(r)) == without_range(rope_chars(*old(r)), start as int, end as int),
{
    r.remove(start..end)
}

} // verus!
