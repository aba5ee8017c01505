//! The line structure of a text, as mathematics.
//!
//! A text is a sequence of characters. The newline character `'\n'` is the
//! only line separator: a text with `n` newlines has `n + 1` lines, and a line
//! does not contain the newline that ends it.

use vstd::prelude::*;

verus! {

/// A position in a text as a pair of unbounded integers.
pub struct Place {
    pub row: int,
    pub col: int,
}

/// The number of newlines among the first `k` characters of `s`.
pub open spec fn newlines_before(s: Seq<char>, k: int) -> nat
    decreases k,
{
    if k <= 0 {
        0
    } else if k <= s.len() && s[k - 1] == '\n' {
        newlines_before(s, k - 1) + 1
    } else {
        newlines_before(s, k - 1)
    }
}

/// The number of lines of `s`: one more than the number of its newlines.
pub open spec fn line_count(s: Seq<char>) -> nat {
    newlines_before(s, s.len() as int) + 1
}

/// `k` is where line `row` of `s` begins: `row` newlines come before it, and
/// it is the start of the text or directly follows a newline.
pub open spec fn is_line_start(s: Seq<char>, row: int, k: int) -> bool {
    &&& 0 <= k <= s.len()
    &&& newlines_before(s, k) == row
    &&& (k == 0 || s[k - 1] == '\n')
}

/// The offset of the first character of line `row`.
pub open spec fn line_start(s: Seq<char>, row: int) -> int {
    choose|k: int| is_line_start(s, row, k)
}

/// The offset just behind the last character of line `row`, its newline not
/// counted.
pub open spec fn line_end(s: Seq<char>, row: int) -> int {
    if row + 1 < line_count(s) {
        line_start(s, row + 1) - 1
    } else {
        s.len() as int
    }
}

/// The offset behind line `row` and the newline that ends it, where it has
/// one: the start of the next line, or the end of the text.
pub open spec fn line_stop(s: Seq<char>, row: int) -> int {
    if row + 1 < line_count(s) {
        line_start(s, row + 1)
    } else {
        s.len() as int
    }
}

/// The number of characters of line `row`, its newline not counted.
pub open spec fn line_len(s: Seq<char>, row: int) -> int {
    line_end(s, row) - line_start(s, row)
}

/// The characters of line `row`, its newline not counted.
pub open spec fn line_text(s: Seq<char>, row: int) -> Seq<char> {
    s.subrange(line_start(s, row), line_end(s, row))
}

/// `p` names a line of `s` and a column on it; the column may stand just
/// behind the line's last character.
pub open spec fn valid_place(s: Seq<char>, p: Place) -> bool {
    &&& 0 <= p.row < line_count(s)
    &&& 0 <= p.col <= line_len(s, p.row)
}

/// The offset in `s` that `p` stands for.
pub open spec fn offset_of(s: Seq<char>, p: Place) -> int {
    line_start(s, p.row) + p.col
}

/// The place that the offset `k` stands for.
pub open spec fn place_of(s: Seq<char>, k: int) -> Place {
    Place { row: newlines_before(s, k) as int, col: k - line_start(s, newlines_before(s, k) as int) }
}

/// 1 where `c` is the newline, 0 elsewhere.
pub open spec fn newline_weight(c: char) -> int {
    if c == '\n' {
        1
    } else {
        0
    }
}

/// The text `s` with the characters from `start` up to `end` taken out.
pub open spec fn without_range(s: Seq<char>, start: int, end: int) -> Seq<char> {
    s.subrange(0, start) + s.subrange(end, s.len() as int)
}

/// Further on in the text there are no fewer newlines behind.
pub proof fn lemma_newlines_monotone(s: Seq<char>, a: int, b: int)
    requires
        a <= b,
    ensures
        newlines_before(s, a) <= newlines_before(s, b),
    decreases b - a,
{
    if a < b {
        lemma_newlines_monotone(s, a, b - 1);
    }
}

/// No more newlines than characters.
pub proof fn lemma_newlines_bound(s: Seq<char>, k: int)
    requires
        0 <= k,
    ensures
        newlines_before(s, k) <= k,
        newlines_before(s, k) <= s.len(),
    decreases k,
{
    if k > 0 {
        lemma_newlines_bound(s, k - 1);
        if k > s.len() {
            lemma_newlines_beyond(s, k);
        }
    }
}

/// Behind the end of the text the count stands still.
pub proof fn lemma_newlines_beyond(s: Seq<char>, k: int)
    requires
        k >= s.len(),
    ensures
        newlines_before(s, k) == newlines_before(s, s.len() as int),
    decreases k - s.len(),
{
    if k > s.len() {
        lemma_newlines_beyond(s, k - 1);
    }
}

/// Among the first `k` offsets there is a start for every line that has
/// begun by then.
proof fn lemma_line_start_upto(s: Seq<char>, row: int, k: int)
    requires
        0 <= k <= s.len(),
        0 <= row <= newlines_before(s, k),
    ensures
        exists|j: int| 0 <= j <= k && is_line_start(s, row, j),
    decreases k,
{
    if k == 0 {
        assert(is_line_start(s, row, 0));
    } else if row <= newlines_before(s, k - 1) {
        lemma_line_start_upto(s, row, k - 1);
        let j = choose|j: int| 0 <= j <= k - 1 && is_line_start(s, row, j);
        assert(0 <= j <= k && is_line_start(s, row, j));
    } else {
        assert(is_line_start(s, row, k));
    }
}

/// Every line of a text has a start.
pub proof fn lemma_line_start(s: Seq<char>, row: int)
    requires
        0 <= row < line_count(s),
    ensures
        is_line_start(s, row, line_start(s, row)),
{
    lemma_line_start_upto(s, row, s.len() as int);
}

/// A line has only one start.
pub proof fn lemma_line_start_unique(s: Seq<char>, row: int, k: int)
    requires
        is_line_start(s, row, k),
    ensures
        line_start(s, row) == k,
{
    let j = line_start(s, row);
    assert(is_line_start(s, row, j));
    if j < k {
        lemma_newlines_monotone(s, j, k - 1);
    } else if k < j {
        lemma_newlines_monotone(s, k, j - 1);
    }
}

/// Where a line begins and ends, and what lies between.
pub proof fn lemma_line_bounds(s: Seq<char>, row: int)
    requires
        0 <= row < line_count(s),
    ensures
        0 <= line_start(s, row) <= line_end(s, row) <= s.len(),
        newlines_before(s, line_start(s, row)) == row,
        newlines_before(s, line_end(s, row)) == row,
        line_start(s, row) == 0 || s[line_start(s, row) - 1] == '\n',
        line_end(s, row) == s.len() || s[line_end(s, row)] == '\n',
        row + 1 < line_count(s) ==> line_start(s, row + 1) == line_end(s, row) + 1,
        forall|k: int| line_start(s, row) <= k <= line_end(s, row) ==> newlines_before(s, k) == row,
        forall|k: int| line_start(s, row) <= k < line_end(s, row) ==> s[k] != '\n',
{
    lemma_line_start(s, row);
    let a = line_start(s, row);
    let b = line_end(s, row);
    if row + 1 < line_count(s) {
        lemma_line_start(s, row + 1);
        let n = line_start(s, row + 1);
        assert(n > 0);
        if n - 1 < a {
            lemma_newlines_monotone(s, n, a);
        }
    } else {
        assert(newlines_before(s, b) == row);
    }
    assert forall|k: int| a <= k <= b implies newlines_before(s, k) == row by {
        lemma_newlines_monotone(s, a, k);
        lemma_newlines_monotone(s, k, b);
    }
    assert forall|k: int| a <= k < b implies s[k] != '\n' by {
        lemma_newlines_monotone(s, a, k);
        lemma_newlines_monotone(s, k + 1, b);
    }
}

/// The start of the text is a valid place in it, and where its first line
/// begins.
pub proof fn lemma_origin_valid(s: Seq<char>)
    ensures
        valid_place(s, Place { row: 0, col: 0 }),
        line_start(s, 0) == 0,
{
    lemma_line_bounds(s, 0);
    lemma_line_start_unique(s, 0, 0);
}

/// An offset with `row` newlines before it lies on line `row`.
pub proof fn lemma_offset_on_line(s: Seq<char>, k: int)
    requires
        0 <= k <= s.len(),
    ensures
        valid_place(s, place_of(s, k)),
        offset_of(s, place_of(s, k)) == k,
{
    let row = newlines_before(s, k) as int;
    lemma_newlines_monotone(s, k, s.len() as int);
    lemma_line_bounds(s, row);
    let a = line_start(s, row);
    let b = line_end(s, row);
    if k < a {
        lemma_newlines_monotone(s, k, a - 1);
    }
    if k > b {
        lemma_newlines_monotone(s, b + 1, k);
    }
}

/// A place on a line of `s` whose offset has that line's number of newlines
/// before it is valid.
pub proof fn lemma_place_from_offset(s: Seq<char>, row: int, start: int, k: int)
    requires
        is_line_start(s, row, start),
        start <= k <= s.len(),
        newlines_before(s, k) == row,
    ensures
        valid_place(s, Place { row: row, col: k - start }),
        line_start(s, row) == start,
        place_of(s, k) == (Place { row: row, col: k - start }),
{
    lemma_line_start_unique(s, row, start);
    lemma_offset_on_line(s, k);
}

/// One character more in the count: the count grows by the character's
/// weight.
pub proof fn lemma_newlines_step(s: Seq<char>, k: int)
    requires
        0 <= k < s.len(),
    ensures
        newlines_before(s, k + 1) == newlines_before(s, k) + newline_weight(s[k]),
{
}

/// How one inserted character moves the newline counts.
pub proof fn lemma_insert_newlines(s: Seq<char>, p: int, c: char, k: int)
    requires
        0 <= p <= s.len(),
        0 <= k <= s.len() + 1,
    ensures
        newlines_before(s.insert(p, c), k) == if k <= p {
            newlines_before(s, k) as int
        } else {
            newlines_before(s, k - 1) + newline_weight(c)
        },
    decreases k,
{
    let t = s.insert(p, c);
    if k > 0 {
        lemma_insert_newlines(s, p, c, k - 1);
        lemma_newlines_step(t, k - 1);
        if k - 1 < p {
            assert(t[k - 1] == s[k - 1]);
            lemma_newlines_step(s, k - 1);
        } else if k - 1 == p {
            assert(t[k - 1] == c);
        } else {
            assert(t[k - 1] == s[k - 2]);
            lemma_newlines_step(s, k - 2);
        }
    }
}

/// How one removed character moves the newline counts.
pub proof fn lemma_remove_newlines(s: Seq<char>, p: int, k: int)
    requires
        0 <= p < s.len(),
        0 <= k <= s.len() - 1,
    ensures
        newlines_before(s.remove(p), k) == if k <= p {
            newlines_before(s, k) as int
        } else {
            newlines_before(s, k + 1) - newline_weight(s[p])
        },
    decreases k,
{
    let t = s.remove(p);
    if k > 0 {
        lemma_remove_newlines(s, p, k - 1);
        lemma_newlines_step(t, k - 1);
        lemma_newlines_step(s, k - 1);
        lemma_newlines_step(s, k);
        if k - 1 < p {
            assert(t[k - 1] == s[k - 1]);
        } else {
            assert(t[k - 1] == s[k]);
        }
    }
}

/// How a removed range moves the newline counts: those in the range are
/// lost to every count behind it.
pub proof fn lemma_remove_range_newlines(s: Seq<char>, start: int, end: int, k: int)
    requires
        0 <= start <= end <= s.len(),
        0 <= k <= s.len() - (end - start),
    ensures
        newlines_before(without_range(s, start, end), k) == if k <= start {
            newlines_before(s, k) as int
        } else {
            newlines_before(s, k + (end - start)) - (newlines_before(s, end) - newlines_before(
                s,
                start,
            ))
        },
    decreases k,
{
    let t = without_range(s, start, end);
    if k > 0 {
        lemma_remove_range_newlines(s, start, end, k - 1);
        lemma_newlines_step(t, k - 1);
        if k - 1 < start {
            assert(t[k - 1] == s[k - 1]);
            lemma_newlines_step(s, k - 1);
        } else {
            assert(t[k - 1] == s[k - 1 + (end - start)]);
            lemma_newlines_step(s, k - 1 + (end - start));
        }
    }
}

/// A removal takes as many lines away as it takes newlines out.
pub proof fn lemma_remove_line_count(s: Seq<char>, start: int, end: int)
    requires
        0 <= start <= end <= s.len(),
    ensures
        line_count(without_range(s, start, end)) == line_count(s) - (newlines_before(s, end)
            - newlines_before(s, start)),
{
    lemma_remove_range_newlines(s, start, end, s.len() - (end - start));
}

/// Taking out the one character at `p` is `Seq::remove`.
pub proof fn lemma_without_one(s: Seq<char>, p: int)
    requires
        0 <= p < s.len(),
    ensures
        without_range(s, p, p + 1) == s.remove(p),
{
    assert(without_range(s, p, p + 1) =~= s.remove(p));
}

/// Removing the character that was just inserted gives the text back.
pub proof fn lemma_insert_remove(s: Seq<char>, p: int, c: char)
    requires
        0 <= p <= s.len(),
    ensures
        s.insert(p, c).remove(p) == s,
{
    assert(s.insert(p, c).remove(p) =~= s);
}

/// Lines begin in the order of their rows: a later line begins further on.
pub proof fn lemma_line_start_increases(s: Seq<char>, r1: int, r2: int)
    requires
        0 <= r1 < r2 < line_count(s),
    ensures
        line_start(s, r1) < line_start(s, r2),
{
    lemma_line_bounds(s, r1);
    lemma_line_bounds(s, r2);
    if line_start(s, r2) <= line_start(s, r1) {
        lemma_newlines_monotone(s, line_start(s, r2), line_start(s, r1));
    }
}

/// Texts that agree on their first `n` characters agree on the newline
/// counts up to `n`.
pub proof fn lemma_prefix_newlines(s: Seq<char>, t: Seq<char>, n: int, k: int)
    requires
        0 <= k <= n,
        n <= s.len(),
        n <= t.len(),
        forall|i: int| 0 <= i < n ==> s[i] == t[i],
    ensures
        newlines_before(s, k) == newlines_before(t, k),
    decreases k,
{
    if k > 0 {
        lemma_prefix_newlines(s, t, n, k - 1);
        lemma_newlines_step(s, k - 1);
        lemma_newlines_step(t, k - 1);
    }
}

/// An edit leaves the lines before it where they were: texts that agree on
/// their first `n` characters agree on every line start up to `n`.
pub proof fn lemma_prefix_line_start(s: Seq<char>, t: Seq<char>, n: int, row: int)
    requires
        0 <= n <= s.len(),
        n <= t.len(),
        forall|i: int| 0 <= i < n ==> s[i] == t[i],
        0 <= row < line_count(s),
        line_start(s, row) <= n,
    ensures
        row < line_count(t),
        line_start(t, row) == line_start(s, row),
{
    lemma_line_bounds(s, row);
    let a = line_start(s, row);
    lemma_prefix_newlines(s, t, n, a);
    assert(is_line_start(t, row, a));
    lemma_line_start_unique(t, row, a);
    lemma_newlines_monotone(t, a, t.len() as int);
}

/// An insertion leaves the lines that begin at or before it where they
/// were.
pub proof fn lemma_insert_keeps_earlier_lines(s: Seq<char>, p: int, c: char, row: int)
    requires
        0 <= p <= s.len(),
        0 <= row < line_count(s),
        line_start(s, row) <= p,
    ensures
        row < line_count(s.insert(p, c)),
        line_start(s.insert(p, c), row) == line_start(s, row),
{
    lemma_prefix_line_start(s, s.insert(p, c), p, row);
}

/// A removal leaves the lines that begin at or before it where they were.
pub proof fn lemma_remove_keeps_earlier_lines(s: Seq<char>, start: int, end: int, row: int)
    requires
        0 <= start <= end <= s.len(),
        0 <= row < line_count(s),
        line_start(s, row) <= start,
    ensures
        row < line_count(without_range(s, start, end)),
        line_start(without_range(s, start, end), row) == line_start(s, row),
{
    lemma_prefix_line_start(s, without_range(s, start, end), start, row);
}

/// An inserted newline adds one line; any other character adds none.
pub proof fn lemma_insert_line_count(s: Seq<char>, p: int, c: char)
    requires
        0 <= p <= s.len(),
    ensures
        line_count(s.insert(p, c)) == line_count(s) + newline_weight(c),
{
    lemma_insert_newlines(s, p, c, s.len() as int + 1);
    if s.len() > 0 {
        lemma_newlines_step(s, s.len() - 1);
    }
}

/// Taking out the newline that ends a line takes one line away, and joins
/// the line to the one that followed it.
pub proof fn lemma_remove_newline_joins(s: Seq<char>, row: int)
    requires
        0 <= row,
        row + 1 < line_count(s),
    ensures
        s[line_end(s, row)] == '\n',
        line_count(s.remove(line_end(s, row))) == line_count(s) - 1,
        line_text(s.remove(line_end(s, row)), row) == line_text(s, row) + line_text(s, row + 1),
{
    lemma_line_bounds(s, row);
    lemma_line_bounds(s, row + 1);
    let p = line_end(s, row);
    let a = line_start(s, row);
    let t = s.remove(p);
    lemma_remove_newlines(s, p, s.len() - 1);
    lemma_remove_newlines(s, p, a);
    if a > 0 {
        assert(t[a - 1] == s[a - 1]);
    }
    assert(is_line_start(t, row, a));
    lemma_line_start_unique(t, row, a);
    if row + 2 < line_count(s) {
        lemma_line_bounds(s, row + 2);
        let q = line_start(s, row + 2);
        lemma_remove_newlines(s, p, q - 1);
        assert(t[q - 2] == s[q - 1]);
        assert(is_line_start(t, row + 1, q - 1));
        lemma_line_start_unique(t, row + 1, q - 1);
    }
    assert(line_end(t, row) == line_end(s, row + 1) - 1);
    assert(line_text(t, row) =~= line_text(s, row) + line_text(s, row + 1));
}

} // verus!
