//! The `PATH` variable as text: `;`-separated entries, compared without
//! trailing backslashes and without regard to case.

use vstd::prelude::*;
use crate::text::{
    chars_of, concat2, concat3, split_chars, split_on, views, join_chars, join_with,
    trim_end_chars, trim_end_char, to_lowercase, lowercase, string_from_chars, chars_eq,
    lemma_split_nonempty,
};

verus! {

/// The separator of `PATH` entries.
pub open spec fn semicolon() -> Seq<char> {
    seq![';']
}

/// The form in which entries are compared: trailing backslashes dropped, lowercased.
pub open spec fn normalized(entry: Seq<char>) -> Seq<char> {
    lowercase(trim_end_char(entry, '\\'))
}

/// The non-empty pieces of `pieces`, in order.
pub open spec fn non_empty(pieces: Seq<Seq<char>>) -> Seq<Seq<char>>
    decreases pieces.len(),
{
    if pieces.len() == 0 {
        Seq::<Seq<char>>::empty()
    } else {
        let prev = non_empty(pieces.drop_last());
        if pieces.last().len() > 0 {
            prev.push(pieces.last())
        } else {
            prev
        }
    }
}

/// The entries of a `PATH` text: its non-empty `;`-separated pieces.
pub open spec fn path_entries(path: Seq<char>) -> Seq<Seq<char>> {
    non_empty(split_on(path, semicolon()))
}

/// Whether some entry of `path` compares equal to `normalized_entry`.
pub open spec fn path_has(path: Seq<char>, normalized_entry: Seq<char>) -> bool {
    exists|i: int|
        0 <= i < path_entries(path).len() && normalized(#[trigger] path_entries(path)[i])
            == normalized_entry
}

/// The entries of `entries` that do not compare equal to `normalized_entry`, in order.
pub open spec fn entries_without(entries: Seq<Seq<char>>, normalized_entry: Seq<char>) -> Seq<
    Seq<char>,
>
    decreases entries.len(),
{
    if entries.len() == 0 {
        Seq::<Seq<char>>::empty()
    } else {
        let prev = entries_without(entries.drop_last(), normalized_entry);
        if normalized(entries.last()) != normalized_entry {
            prev.push(entries.last())
        } else {
            prev
        }
    }
}

/// `current` with `new_entry` appended, with a `;` between them unless
/// `current` is empty or already ends with one.
pub open spec fn appended(current: Seq<char>, new_entry: Seq<char>) -> Seq<char> {
    if current.len() == 0 || current.last() == ';' {
        current + new_entry
    } else {
        current + semicolon() + new_entry
    }
}

/// `path` without the entries that compare equal to `normalized_entry`: the
/// remaining non-empty entries joined with `;`.
pub open spec fn removed(path: Seq<char>, normalized_entry: Seq<char>) -> Seq<char> {
    join_with(entries_without(path_entries(path), normalized_entry), semicolon())
}

/// The normal form of `entry`.
pub fn normalize_entry(entry: &str) -> (r: String)
    ensures
        r@ == normalized(entry@),
{
    let cs = chars_of(entry);
    let trimmed = trim_end_chars(cs.as_slice(), '\\');
    let t = string_from_chars(trimmed.as_slice());
    to_lowercase(t.as_str())
}

fn entry_pieces(path: &str) -> (r: Vec<Vec<char>>)
    ensures
        views(r@) == path_entries(path@),
{
    let cs = chars_of(path);
    let seps: Vec<char> = vec![';'];
    assert(seps@ =~= semicolon());
    let pieces = split_chars(cs.as_slice(), seps.as_slice());
    let mut r: Vec<Vec<char>> = Vec::new();
    let mut i: usize = 0;
    while i < pieces.len()
        invariant
            0 <= i <= pieces@.len(),
            views(pieces@) == split_on(path@, semicolon()),
            views(r@) == non_empty(views(pieces@).take(i as int)),
        decreases pieces@.len() - i,
    {
        proof {
            assert(views(pieces@).take(i + 1).drop_last() =~= views(pieces@).take(i as int));
            assert(views(pieces@).take(i + 1).last() == pieces@[i as int]@);
        }
        if pieces[i].len() > 0 {
            let ghost before = r@;
            r.push(pieces[i].clone());
            proof {
                assert(views(r@) =~= views(before).push(pieces@[i as int]@));
            }
        }
        i += 1;
    }
    proof {
        assert(views(pieces@).take(pieces@.len() as int) =~= views(pieces@));
    }
    r
}

/// Whether `path_str` has an entry that compares equal to `normalized_entry`
/// (which is expected in normal form).
pub fn path_contains(path_str: &str, normalized_entry: &str) -> (r: bool)
    ensures
        r == path_has(path_str@, normalized_entry@),
{
    let entries = entry_pieces(path_str);
    let target = chars_of(normalized_entry);
    let mut i: usize = 0;
    while i < entries.len()
        invariant
            0 <= i <= entries@.len(),
            views(entries@) == path_entries(path_str@),
            target@ == normalized_entry@,
            forall|j: int| 0 <= j < i ==> normalized(#[trigger] path_entries(path_str@)[j]) != normalized_entry@,
        decreases entries@.len() - i,
    {
        let e = string_from_chars(entries[i].as_slice());
        let n = normalize_entry(e.as_str());
        let ncs = chars_of(n.as_str());
        assert(path_entries(path_str@)[i as int] == entries@[i as int]@);
        if chars_eq(ncs.as_slice(), target.as_slice()) {
            return true;
        }
        i += 1;
    }
    false
}

/// `current` with `new_entry` appended as a new entry.
pub fn append_entry(current: &str, new_entry: &str) -> (r: String)
    ensures
        r@ == appended(current@, new_entry@),
{
    let cs = chars_of(current);
    if cs.len() == 0 || cs[cs.len() - 1] == ';' {
        concat2(current, new_entry)
    } else {
        let r = concat3(current, ";", new_entry);
        proof {
            reveal_strlit(";");
        }
        r
    }
}

/// `path_str` without the entries that compare equal to `normalized_entry`.
pub fn remove_entry(path_str: &str, normalized_entry: &str) -> (r: String)
    ensures
        r@ == removed(path_str@, normalized_entry@),
{
    let entries = entry_pieces(path_str);
    let target = chars_of(normalized_entry);
    let mut kept: Vec<Vec<char>> = Vec::new();
    let mut i: usize = 0;
    while i < entries.len()
        invariant
            0 <= i <= entries@.len(),
            views(entries@) == path_entries(path_str@),
            target@ == normalized_entry@,
            views(kept@) == entries_without(views(entries@).take(i as int), normalized_entry@),
        decreases entries@.len() - i,
    {
        proof {
            assert(views(entries@).take(i + 1).drop_last() =~= views(entries@).take(i as int));
            assert(views(entries@).take(i + 1).last() == entries@[i as int]@);
        }
        let e = string_from_chars(entries[i].as_slice());
        let n = normalize_entry(e.as_str());
        let ncs = chars_of(n.as_str());
        if !chars_eq(ncs.as_slice(), target.as_slice()) {
            let ghost before = kept@;
            kept.push(entries[i].clone());
            proof {
                assert(views(kept@) =~= views(before).push(entries@[i as int]@));
            }
        }
        i += 1;
    }
    proof {
        assert(views(entries@).take(entries@.len() as int) =~= views(entries@));
    }
    let sep: Vec<char> = vec![';'];
    assert(sep@ =~= semicolon());
    let joined = join_chars(&kept, sep.as_slice());
    string_from_chars(joined.as_slice())
}

} // verus!
