//! The order in which a directory's entries are listed.

use std::path::PathBuf;
use vstd::prelude::*;
use crate::std_ext::{lowercase, lowercase_chars};

verus! {

/// What the file system says of one path.
pub struct Entry {
    pub path: PathBuf,
    /// The last component of the path, where it has one that is valid
    /// Unicode.
    pub file_name: Option<String>,
    pub is_dir: bool,
}

/// Lexicographic order by code point, from index `i` on; the characters
/// before `i` are taken to agree.
pub open spec fn chars_le_from(a: Seq<char>, b: Seq<char>, i: int) -> bool
    decreases a.len() - i,
{
    if i >= a.len() {
        true
    } else if i >= b.len() {
        false
    } else if a[i] as u32 != b[i] as u32 {
        (a[i] as u32) < (b[i] as u32)
    } else {
        chars_le_from(a, b, i + 1)
    }
}

/// `a` comes before `b` in lexicographic order by code point, or is `b`.
pub open spec fn chars_le(a: Seq<char>, b: Seq<char>) -> bool {
    chars_le_from(a, b, 0)
}

/// The name under which an entry is listed.
pub open spec fn node_name(e: Entry) -> Seq<char> {
    match e.file_name {
        Some(name) => name@,
        None => "Unknown"@,
    }
}

/// An entry that is not listed: one whose name begins with a dot, and the
/// directories that build tools fill.
pub open spec fn is_hidden(e: Entry) -> bool {
    match e.file_name {
        Some(name) => (name@.len() > 0 && name@[0] == '.') || name@ == "target"@ || name@
            == "node_modules"@ || name@ == ".git"@,
        None => false,
    }
}

/// `a` may stand before `b`: directories before files, and among each by
/// name without regard to case.
pub open spec fn entry_le(a: Entry, b: Entry) -> bool {
    if a.is_dir != b.is_dir {
        a.is_dir
    } else {
        chars_le(lowercase(node_name(a)), lowercase(node_name(b)))
    }
}

/// The entries that are listed, in the order given.
pub open spec fn kept(s: Seq<Entry>) -> Seq<Entry>
    decreases s.len(),
{
    if s.len() == 0 {
        Seq::empty()
    } else if is_hidden(s.last()) {
        kept(s.drop_last())
    } else {
        kept(s.drop_last()).push(s.last())
    }
}

/// Where `e` enters an ordered `s`: behind the last entry that may stand
/// before it.
pub open spec fn place_for(s: Seq<Entry>, e: Entry) -> int
    decreases s.len(),
{
    if s.len() == 0 {
        0
    } else if entry_le(s.last(), e) {
        s.len() as int
    } else {
        place_for(s.drop_last(), e)
    }
}

/// The entries in order. Entries of which each may stand before the other
/// keep the order in which they were given.
pub open spec fn sorted(s: Seq<Entry>) -> Seq<Entry>
    decreases s.len(),
{
    if s.len() == 0 {
        Seq::empty()
    } else {
        let rest = sorted(s.drop_last());
        rest.insert(place_for(rest, s.last()), s.last())
    }
}

/// Each entry may stand before all that follow it.
pub open spec fn ordered(s: Seq<Entry>) -> bool {
    forall|i: int, j: int| 0 <= i < j < s.len() ==> entry_le(s[i], s[j])
}

pub proof fn lemma_chars_le_total(a: Seq<char>, b: Seq<char>, i: int)
    requires
        0 <= i,
    ensures
        chars_le_from(a, b, i) || chars_le_from(b, a, i),
    decreases a.len() - i,
{
    if i < a.len() && i < b.len() && a[i] as u32 == b[i] as u32 {
        lemma_chars_le_total(a, b, i + 1);
    }
}

pub proof fn lemma_chars_le_transitive(a: Seq<char>, b: Seq<char>, c: Seq<char>, i: int)
    requires
        0 <= i,
        chars_le_from(a, b, i),
        chars_le_from(b, c, i),
    ensures
        chars_le_from(a, c, i),
    decreases a.len() - i,
{
    if i < a.len() && i < b.len() && i < c.len() && a[i] as u32 == b[i] as u32 && b[i] as u32
        == c[i] as u32 {
        lemma_chars_le_transitive(a, b, c, i + 1);
    }
}

/// Of two entries one may stand before the other.
pub proof fn lemma_entry_le_total(a: Entry, b: Entry)
    ensures
        entry_le(a, b) || entry_le(b, a),
{
    lemma_chars_le_total(lowercase(node_name(a)), lowercase(node_name(b)), 0);
}

/// What may stand before an entry may stand before all that this entry may
/// stand before.
pub proof fn lemma_entry_le_transitive(a: Entry, b: Entry, c: Entry)
    requires
        entry_le(a, b),
        entry_le(b, c),
    ensures
        entry_le(a, c),
{
    if a.is_dir == b.is_dir && b.is_dir == c.is_dir {
        lemma_chars_le_transitive(
            lowercase(node_name(a)),
            lowercase(node_name(b)),
            lowercase(node_name(c)),
            0,
        );
    }
}

/// The place at which an entry enters lies in the sequence; all before it
/// may stand before the entry, where the sequence is ordered, and the entry
/// may stand before all behind it.
pub proof fn lemma_place_for(s: Seq<Entry>, e: Entry)
    requires
        ordered(s),
    ensures
        0 <= place_for(s, e) <= s.len(),
        forall|i: int| 0 <= i < place_for(s, e) ==> entry_le(#[trigger] s[i], e),
        forall|i: int| place_for(s, e) <= i < s.len() ==> entry_le(e, #[trigger] s[i]),
        forall|i: int| place_for(s, e) <= i < s.len() ==> !entry_le(#[trigger] s[i], e),
    decreases s.len(),
{
    if s.len() > 0 {
        if entry_le(s.last(), e) {
            assert forall|i: int| 0 <= i < s.len() implies entry_le(#[trigger] s[i], e) by {
                if i < s.len() - 1 {
                    lemma_entry_le_transitive(s[i], s.last(), e);
                }
            }
        } else {
            let t = s.drop_last();
            assert(ordered(t)) by {
                assert forall|i: int, j: int| 0 <= i < j < t.len() implies entry_le(t[i], t[j]) by {
                    assert(t[i] == s[i] && t[j] == s[j]);
                }
            }
            lemma_place_for(t, e);
            lemma_entry_le_total(s.last(), e);
            assert forall|i: int| 0 <= i < place_for(s, e) implies entry_le(#[trigger] s[i], e) by {
                assert(s[i] == t[i]);
            }
            assert forall|i: int| place_for(s, e) <= i < s.len() implies entry_le(
                e,
                #[trigger] s[i],
            ) && !entry_le(s[i], e) by {
                if i < s.len() - 1 {
                    assert(s[i] == t[i]);
                }
            }
        }
    }
}

/// Sorting orders the entries, and neither adds nor loses one.
pub proof fn lemma_sorted(s: Seq<Entry>)
    ensures
        ordered(sorted(s)),
        sorted(s).to_multiset() == s.to_multiset(),
        sorted(s).len() == s.len(),
    decreases s.len(),
{
    if s.len() > 0 {
        let rest = sorted(s.drop_last());
        let e = s.last();
        lemma_sorted(s.drop_last());
        lemma_place_for(rest, e);
        let p = place_for(rest, e);
        let r = rest.insert(p, e);
        assert forall|i: int, j: int| 0 <= i < j < r.len() implies entry_le(r[i], r[j]) by {
            if j < p {
                assert(r[i] == rest[i] && r[j] == rest[j]);
            } else if j == p {
                assert(r[i] == rest[i]);
            } else if i < p {
                assert(r[i] == rest[i] && r[j] == rest[j - 1]);
                lemma_entry_le_transitive(rest[i], e, rest[j - 1]);
            } else if i == p {
                assert(r[j] == rest[j - 1]);
            } else {
                assert(r[i] == rest[i - 1] && r[j] == rest[j - 1]);
            }
        }
        assert(s =~= s.drop_last().push(e));
        vstd::seq_lib::to_multiset_insert(rest, p, e);
        vstd::seq_lib::to_multiset_build(s.drop_last(), e);
    } else {
        assert(sorted(s) =~= s);
    }
}

/// The name under which an entry is listed.
pub fn entry_name(e: &Entry) -> (name: &str)
    ensures
        name@ == node_name(*e),
{
    match &e.file_name {
        Some(name) => name.as_str(),
        None => "Unknown",
    }
}

/// Whether an entry is left out of the listing.
pub fn entry_hidden(e: &Entry) -> (hidden: bool)
    ensures
        hidden == is_hidden(*e),
{
    match &e.file_name {
        Some(name) => {
            let name = name.as_str();
            let dotted = name.unicode_len() > 0 && name.get_char(0) == '.';
            dotted || same_text(name, "target") || same_text(name, "node_modules") || same_text(
                name,
                ".git",
            )
        },
        None => false,
    }
}

fn same_text(a: &str, b: &str) -> (same: bool)
    ensures
        same == (a@ == b@),
{
    a.to_owned() == b.to_owned()
}

/// Lexicographic order by code point.
pub fn chars_precede(a: &Vec<char>, b: &Vec<char>) -> (le: bool)
    ensures
        le == chars_le(a@, b@),
{
    let mut i: usize = 0;
    while i < a.len() && i < b.len() && a[i] as u32 == b[i] as u32
        invariant
            0 <= i <= a.len(),
            chars_le(a@, b@) == chars_le_from(a@, b@, i as int),
        decreases a.len() - i,
    {
        i += 1;
    }
    if i >= a.len() {
        true
    } else if i >= b.len() {
        false
    } else {
        (a[i] as u32) < (b[i] as u32)
    }
}

/// Whether `a` may stand before `b` in a listing.
pub fn entry_precedes(a: &Entry, b: &Entry) -> (le: bool)
    ensures
        le == entry_le(*a, *b),
{
    if a.is_dir != b.is_dir {
        a.is_dir
    } else {
        let left = lowercase_chars(entry_name(a));
        let right = lowercase_chars(entry_name(b));
        chars_precede(&left, &right)
    }
}

/// The place at which `e` enters the ordered `entries`.
pub fn find_place(entries: &Vec<Entry>, e: &Entry) -> (p: usize)
    ensures
        p == place_for(entries@, *e),
        p <= entries@.len(),
{
    let mut p: usize = entries.len();
    assert(entries@.take(p as int) =~= entries@);
    while p > 0 && !entry_precedes(&entries[p - 1], e)
        invariant
            0 <= p <= entries@.len(),
            place_for(entries@, *e) == place_for(entries@.take(p as int), *e),
        decreases p,
    {
        assert(entries@.take(p as int).drop_last() =~= entries@.take(p - 1));
        p -= 1;
    }
    p
}

/// The entries that are listed, in the order in which they are listed.
pub fn sort_entries(entries: Vec<Entry>) -> (listed: Vec<Entry>)
    ensures
        listed@ == sorted(kept(entries@)),
{
    let ghost given = entries@;
    let mut listed: Vec<Entry> = Vec::new();
    for entry in it: entries
        invariant
            it.seq() == given,
            listed@ == sorted(kept(given.take(it.index() as int))),
    {
        let ghost n = it.index() as int;
        assert(given.take(n + 1).drop_last() =~= given.take(n));
        assert(given.take(n + 1).last() == entry);
        if !entry_hidden(&entry) {
            let p = find_place(&listed, &entry);
            let ghost before = kept(given.take(n));
            assert(before.push(entry).drop_last() =~= before);
            assert(before.push(entry).last() == entry);
            listed.insert(p, entry);
        }
    }
    assert(given.take(given.len() as int) =~= given);
    listed
}

} // verus!
