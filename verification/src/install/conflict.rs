//! Clearing what an older install left behind before a component is installed:
//! which `PATH` entries to remove, which directories may be deleted, which MSI
//! product to uninstall, and the order of the cleanup steps. Reading the
//! registry and the file system and acting on the answers is the caller's part.

use vstd::prelude::*;
use crate::text::{
    chars_of, split_chars, split_on, views, is_blank, is_blank_chars, trim_end_chars, trim_end_char,
    string_from_chars, concat3, lowercase, to_lowercase, contains_chars, contains_text,
    ends_with_chars, ends_with_text, replace_char, replaced,
    find_char, first_index, str_eq, chars_eq, owned,
};
use crate::types::option_views;
use crate::version_catalog::pattern::string_views;
use crate::system::path_entry::{semicolon, normalized, normalize_entry, non_empty, path_entries, removed, entries_without};
use crate::system::path_laws::{lemma_remove_entries, lemma_entries_without};

verus! {

// ---------------------------------------------------------------------------
// Scanning PATH
// ---------------------------------------------------------------------------

/// The pieces of `pieces` that hold something besides white space, in order.
pub open spec fn not_blank(pieces: Seq<Seq<char>>) -> Seq<Seq<char>>
    decreases pieces.len(),
{
    if pieces.len() == 0 {
        Seq::<Seq<char>>::empty()
    } else {
        let prev = not_blank(pieces.drop_last());
        if !is_blank(pieces.last()) {
            prev.push(pieces.last())
        } else {
            prev
        }
    }
}

/// The entries a scan of `path` looks at: its `;`-separated pieces that are not
/// blank.
pub open spec fn scanned_entries(path: Seq<char>) -> Seq<Seq<char>> {
    not_blank(split_on(path, semicolon()))
}

/// Where executable `exe` would be in directory `entry`.
pub open spec fn exe_path(entry: Seq<char>, exe: Seq<char>) -> Seq<char> {
    trim_end_char(entry, '\\') + "\\"@ + exe
}

fn scan(fresh_path: &str) -> (r: Vec<Vec<char>>)
    ensures
        views(r@) == scanned_entries(fresh_path@),
{
    let cs = chars_of(fresh_path);
    let seps: Vec<char> = vec![';'];
    assert(seps@ =~= semicolon());
    let pieces = split_chars(cs.as_slice(), seps.as_slice());
    let mut r: Vec<Vec<char>> = Vec::new();
    let mut i: usize = 0;
    while i < pieces.len()
        invariant
            0 <= i <= pieces@.len(),
            views(pieces@) == split_on(fresh_path@, semicolon()),
            views(r@) == not_blank(views(pieces@).take(i as int)),
        decreases pieces@.len() - i,
    {
        proof {
            assert(views(pieces@).take(i + 1).drop_last() =~= views(pieces@).take(i as int));
            assert(views(pieces@).take(i + 1).last() == pieces@[i as int]@);
        }
        if !is_blank_chars(pieces[i].as_slice()) {
            let ghost before = r@;
            r.push(pieces[i].clone());
            proof {
                assert(views(r@) =~= views(before).push(pieces@[i as int]@));
            }
        }
        i += 1;
    }
    proof {
        assert(views(pieces@).take(pieces@.len() as int) =~= views(pieces@));
    }
    r
}

/// The paths at which the scan of `fresh_path` looks for `exe_name`: one for each
/// scanned entry, in order.
pub fn exe_candidates(fresh_path: &str, exe_name: &str) -> (r: Vec<String>)
    ensures
        string_views(r@) == scanned_entries(fresh_path@).map_values(
            |e: Seq<char>| exe_path(e, exe_name@),
        ),
{
    let entries = scan(fresh_path);
    let ghost want = scanned_entries(fresh_path@).map_values(|e: Seq<char>| exe_path(e, exe_name@));
    let mut r: Vec<String> = Vec::new();
    let mut i: usize = 0;
    while i < entries.len()
        invariant
            0 <= i <= entries@.len(),
            views(entries@) == scanned_entries(fresh_path@),
            want == scanned_entries(fresh_path@).map_values(|e: Seq<char>| exe_path(e, exe_name@)),
            string_views(r@) == want.take(i as int),
        decreases entries@.len() - i,
    {
        let trimmed = trim_end_chars(entries[i].as_slice(), '\\');
        let dir = string_from_chars(trimmed.as_slice());
        let full = concat3(dir.as_str(), "\\", exe_name);
        let ghost before = r@;
        r.push(full);
        proof {
            assert(views(entries@)[i as int] == entries@[i as int]@);
            assert(string_views(r@) =~= string_views(before).push(full@));
            assert(want[i as int] == exe_path(entries@[i as int]@, exe_name@));
            assert(string_views(r@) =~= want.take(i + 1));
        }
        i += 1;
    }
    proof {
        assert(want.take(entries@.len() as int) =~= want);
    }
    r
}

/// Whether flag `i` of `flags` is set (a missing flag counts as unset).
pub open spec fn flag_set(flags: Seq<bool>, i: int) -> bool {
    0 <= i < flags.len() && flags[i]
}

/// The pieces of `pieces` whose flag in `keep` is set, in order.
pub open spec fn selected(pieces: Seq<Seq<char>>, keep: Seq<bool>) -> Seq<Seq<char>>
    decreases pieces.len(),
{
    if pieces.len() == 0 {
        Seq::<Seq<char>>::empty()
    } else {
        let prev = selected(pieces.drop_last(), keep);
        if flag_set(keep, pieces.len() - 1) {
            prev.push(pieces.last())
        } else {
            prev
        }
    }
}

/// The entries of `fresh_path` that hold the executable: `present[i]` tells
/// whether the `i`-th of `exe_candidates(fresh_path, ..)` exists (an entry
/// without a flag counts as not holding it).
pub fn find_path_entries_for_exe(fresh_path: &str, present: &Vec<bool>) -> (r: Vec<String>)
    ensures
        string_views(r@) == selected(scanned_entries(fresh_path@), present@),
{
    let entries = scan(fresh_path);
    let mut r: Vec<String> = Vec::new();
    let mut i: usize = 0;
    while i < entries.len()
        invariant
            0 <= i <= entries@.len(),
            views(entries@) == scanned_entries(fresh_path@),
            string_views(r@) == selected(views(entries@).take(i as int), present@),
        decreases entries@.len() - i,
    {
        proof {
            assert(views(entries@).take(i + 1).drop_last() =~= views(entries@).take(i as int));
            assert(views(entries@).take(i + 1).last() == entries@[i as int]@);
        }
        if i < present.len() && present[i] {
            let e = string_from_chars(entries[i].as_slice());
            let ghost before = r@;
            r.push(e);
            proof {
                assert(string_views(r@) =~= string_views(before).push(e@));
            }
        }
        i += 1;
    }
    proof {
        assert(views(entries@).take(entries@.len() as int) =~= views(entries@));
    }
    r
}

/// The install roots among `dirs`: the directories present (`Some`) that exist as
/// directories (`is_dir[i]`).
pub open spec fn install_roots(dirs: Seq<Option<Seq<char>>>, is_dir: Seq<bool>) -> Seq<Seq<char>>
    decreases dirs.len(),
{
    if dirs.len() == 0 {
        Seq::<Seq<char>>::empty()
    } else {
        let prev = install_roots(dirs.drop_last(), is_dir);
        match dirs.last() {
            Some(d) => if flag_set(is_dir, dirs.len() - 1) {
                prev.push(d)
            } else {
                prev
            },
            None => prev,
        }
    }
}

/// The model of a list of optional texts.
pub open spec fn maybe_views(v: Seq<Option<String>>) -> Seq<Option<Seq<char>>> {
    v.map_values(|o: Option<String>| match o {
        Some(s) => Some(s@),
        None => None,
    })
}

/// The install roots of the entries that hold an executable: `dirs[i]` is the
/// `i`-th entry walked up the wanted number of parent levels (`None` where there
/// were not that many), and `is_dir[i]` whether it is a directory (a missing
/// flag counts as not).
pub fn find_install_roots_from_path(dirs: &Vec<Option<String>>, is_dir: &Vec<bool>) -> (r: Vec<
    String,
>)
    ensures
        string_views(r@) == install_roots(maybe_views(dirs@), is_dir@),
{
    let ghost dv = maybe_views(dirs@);
    let mut r: Vec<String> = Vec::new();
    let mut i: usize = 0;
    while i < dirs.len()
        invariant
            0 <= i <= dirs@.len(),
            dv == maybe_views(dirs@),
            string_views(r@) == install_roots(dv.take(i as int), is_dir@),
        decreases dirs@.len() - i,
    {
        proof {
            assert(dv.take(i + 1).drop_last() =~= dv.take(i as int));
            assert(dv.take(i + 1).last() == dv[i as int]);
        }
        match &dirs[i] {
            Some(d) => {
                if i < is_dir.len() && is_dir[i] {
                    let ghost before = r@;
                    r.push(d.clone());
                    proof {
                        assert(string_views(r@) =~= string_views(before).push(d@));
                    }
                }
            },
            None => {},
        }
        i += 1;
    }
    proof {
        assert(dv.take(dirs@.len() as int) =~= dv);
    }
    r
}

/// The value of the first of `vars` named `key`.
pub open spec fn env_value(vars: Seq<(Seq<char>, Seq<char>)>, key: Seq<char>) -> Option<Seq<char>>
    decreases vars.len(),
{
    if vars.len() == 0 {
        None
    } else if vars[0].0 == key {
        Some(vars[0].1)
    } else {
        env_value(vars.drop_first(), key)
    }
}

/// The model of a list of (name, value) pairs.
pub open spec fn pair_views(v: Seq<(String, String)>) -> Seq<(Seq<char>, Seq<char>)> {
    v.map_values(|p: (String, String)| (p.0@, p.1@))
}

/// The value of variable `key` among the freshly read variables `vars`.
pub fn read_env_var(vars: &Vec<(String, String)>, key: &str) -> (r: Option<String>)
    ensures
        match r {
            Some(v) => env_value(pair_views(vars@), key@) == Some(v@),
            None => env_value(pair_views(vars@), key@) is None,
        },
{
    let ghost pv = pair_views(vars@);
    let mut i: usize = 0;
    assert(pv.skip(0) =~= pv);
    while i < vars.len()
        invariant
            0 <= i <= vars@.len(),
            pv == pair_views(vars@),
            env_value(pv, key@) == env_value(pv.skip(i as int), key@),
        decreases vars@.len() - i,
    {
        let (k, v) = &vars[i];
        proof {
            assert(pv.skip(i as int)[0] == (k@, v@));
            assert(pv.skip(i as int).drop_first() =~= pv.skip(i + 1));
        }
        if str_eq(k.as_str(), key) {
            return Some(v.clone());
        }
        i += 1;
    }
    proof {
        assert(pv.skip(vars@.len() as int) =~= Seq::<(Seq<char>, Seq<char>)>::empty());
    }
    None
}

// ---------------------------------------------------------------------------
// Choosing PATH entries to remove
// ---------------------------------------------------------------------------

/// The entries of `entries` that are to be removed: all of them, or, with a
/// directory to keep, those that do not compare equal to it.
pub open spec fn removable(entries: Seq<Seq<char>>, exclude: Option<Seq<char>>) -> Seq<Seq<char>>
    decreases entries.len(),
{
    if entries.len() == 0 {
        Seq::<Seq<char>>::empty()
    } else {
        let prev = removable(entries.drop_last(), exclude);
        match exclude {
            Some(x) => if normalized(entries.last()) == normalized(x) {
                prev
            } else {
                prev.push(entries.last())
            },
            None => prev.push(entries.last()),
        }
    }
}

/// The directory about to be installed is never among the entries to remove,
/// and every other entry is, in order.
pub proof fn lemma_exclusion_kept(entries: Seq<Seq<char>>, exclude: Seq<char>)
    ensures
        forall|i: int|
            0 <= i < removable(entries, Some(exclude)).len() ==> normalized(
                #[trigger] removable(entries, Some(exclude))[i],
            ) != normalized(exclude),
        forall|e: Seq<char>|
            entries.contains(e) && normalized(e) != normalized(exclude) ==> #[trigger] removable(
                entries,
                Some(exclude),
            ).contains(e),
        removable(entries, None) == entries,
    decreases entries.len(),
{
    if entries.len() > 0 {
        let front = entries.drop_last();
        lemma_exclusion_kept(front, exclude);
        let prev = removable(front, Some(exclude));
        let out = removable(entries, Some(exclude));
        assert forall|i: int| 0 <= i < out.len() implies normalized(#[trigger] out[i]) != normalized(
            exclude,
        ) by {
            if i < prev.len() {
                assert(out[i] == prev[i]);
            }
        }
        assert forall|e: Seq<char>|
            entries.contains(e) && normalized(e) != normalized(exclude) implies #[trigger] out.contains(
            e,
        ) by {
            let k = choose|k: int| 0 <= k < entries.len() && entries[k] == e;
            if k < front.len() {
                assert(front[k] == e);
                assert(prev.contains(e));
                let j = choose|j: int| 0 <= j < prev.len() && prev[j] == e;
                assert(out[j] == e);
            } else {
                assert(out[out.len() - 1] == e);
            }
        }
        assert(front.push(entries.last()) =~= entries);
    }
}

/// The model of an optional text.
pub open spec fn opt_view(o: Option<&str>) -> Option<Seq<char>> {
    match o {
        Some(s) => Some(s@),
        None => None,
    }
}

/// The entries collected earlier that are to be removed from `PATH`, in order;
/// an entry equal to `exclude_dir` (the directory about to be installed) stays.
pub fn remove_entries(entries: &Vec<String>, exclude_dir: Option<&str>) -> (r: Vec<String>)
    ensures
        string_views(r@) == removable(string_views(entries@), opt_view(exclude_dir)),
{
    let ghost ev = string_views(entries@);
    let exclude: Option<String> = match exclude_dir {
        Some(x) => Some(normalize_entry(x)),
        None => None,
    };
    let mut r: Vec<String> = Vec::new();
    let mut i: usize = 0;
    while i < entries.len()
        invariant
            0 <= i <= entries@.len(),
            ev == string_views(entries@),
            match exclude_dir {
                Some(x) => exclude matches Some(n) && n@ == normalized(x@),
                None => exclude is None,
            },
            string_views(r@) == removable(ev.take(i as int), opt_view(exclude_dir)),
        decreases entries@.len() - i,
    {
        proof {
            assert(ev.take(i + 1).drop_last() =~= ev.take(i as int));
            assert(ev.take(i + 1).last() == entries@[i as int]@);
        }
        let e = &entries[i];
        let skip = match &exclude {
            Some(n) => {
                let en = normalize_entry(e.as_str());
                str_eq(en.as_str(), n.as_str())
            },
            None => false,
        };
        if !skip {
            let ghost before = r@;
            r.push(e.clone());
            proof {
                assert(string_views(r@) =~= string_views(before).push(e@));
            }
        }
        i += 1;
    }
    proof {
        assert(ev.take(entries@.len() as int) =~= ev);
    }
    r
}

/// The scanned entries of `path` whose lowercase form contains `needle`, in order.
pub open spec fn entries_containing(pieces: Seq<Seq<char>>, needle: Seq<char>) -> Seq<Seq<char>>
    decreases pieces.len(),
{
    if pieces.len() == 0 {
        Seq::<Seq<char>>::empty()
    } else {
        let prev = entries_containing(pieces.drop_last(), needle);
        if contains_text(lowercase(pieces.last()), needle) {
            prev.push(pieces.last())
        } else {
            prev
        }
    }
}

/// The entries of `fresh_path` that contain `substring`, without regard to case:
/// the entries to remove from `PATH`.
pub fn remove_entries_containing(fresh_path: &str, substring: &str) -> (r: Vec<String>)
    ensures
        string_views(r@) == entries_containing(scanned_entries(fresh_path@), lowercase(substring@)),
{
    let entries = scan(fresh_path);
    let needle_text = to_lowercase(substring);
    let needle = chars_of(needle_text.as_str());
    let mut r: Vec<String> = Vec::new();
    let mut i: usize = 0;
    while i < entries.len()
        invariant
            0 <= i <= entries@.len(),
            views(entries@) == scanned_entries(fresh_path@),
            needle@ == lowercase(substring@),
            string_views(r@) == entries_containing(views(entries@).take(i as int), needle@),
        decreases entries@.len() - i,
    {
        proof {
            assert(views(entries@).take(i + 1).drop_last() =~= views(entries@).take(i as int));
            assert(views(entries@).take(i + 1).last() == entries@[i as int]@);
        }
        let e = string_from_chars(entries[i].as_slice());
        let lower = to_lowercase(e.as_str());
        let lcs = chars_of(lower.as_str());
        if contains_chars(lcs.as_slice(), needle.as_slice()) {
            let ghost before = r@;
            r.push(e);
            proof {
                assert(string_views(r@) =~= string_views(before).push(entries@[i as int]@));
            }
        }
        i += 1;
    }
    proof {
        assert(views(entries@).take(entries@.len() as int) =~= views(entries@));
    }
    r
}

/// `path` after each of `entries` was removed from it in turn (as
/// `remove_from_path` writes it).
pub open spec fn remove_each(path: Seq<char>, entries: Seq<Seq<char>>) -> Seq<char>
    decreases entries.len(),
{
    if entries.len() == 0 {
        path
    } else {
        remove_each(removed(path, normalized(entries[0])), entries.drop_first())
    }
}

proof fn lemma_not_blank_members(pieces: Seq<Seq<char>>)
    ensures
        forall|q: Seq<char>| #[trigger] not_blank(pieces).contains(q) <==> (pieces.contains(q) && !is_blank(q)),
    decreases pieces.len(),
{
    if pieces.len() > 0 {
        let front = pieces.drop_last();
        let last = pieces.last();
        lemma_not_blank_members(front);
        let prev = not_blank(front);
        let out = not_blank(pieces);
        assert(out == (if !is_blank(last) { prev.push(last) } else { prev }));
        assert forall|q: Seq<char>| #[trigger] out.contains(q) <==> (pieces.contains(q) && !is_blank(q)) by {
            if out.contains(q) {
                let k = choose|k: int| 0 <= k < out.len() && out[k] == q;
                if k < prev.len() {
                    assert(prev[k] == q);
                    assert(prev.contains(q));
                    let m = choose|m: int| 0 <= m < front.len() && front[m] == q;
                    assert(pieces[m] == q);
                } else {
                    assert(q == last);
                    assert(pieces[pieces.len() - 1] == q);
                }
            }
            if pieces.contains(q) && !is_blank(q) {
                let k = choose|k: int| 0 <= k < pieces.len() && pieces[k] == q;
                if k < front.len() {
                    assert(front[k] == q);
                    assert(front.contains(q));
                    assert(prev.contains(q));
                    let m = choose|m: int| 0 <= m < prev.len() && prev[m] == q;
                    assert(out[m] == q);
                } else {
                    assert(q == last);
                    assert(out[prev.len() as int] == q);
                }
            }
        }
    }
}

proof fn lemma_containing_members(pieces: Seq<Seq<char>>, needle: Seq<char>)
    ensures
        forall|q: Seq<char>| #[trigger] entries_containing(pieces, needle).contains(q) <==> (pieces.contains(q) && contains_text(lowercase(q), needle)),
    decreases pieces.len(),
{
    if pieces.len() > 0 {
        let front = pieces.drop_last();
        let last = pieces.last();
        lemma_containing_members(front, needle);
        let prev = entries_containing(front, needle);
        let out = entries_containing(pieces, needle);
        assert(out == (if contains_text(lowercase(last), needle) { prev.push(last) } else { prev }));
        assert forall|q: Seq<char>| #[trigger] out.contains(q) <==> (pieces.contains(q) && contains_text(lowercase(q), needle)) by {
            if out.contains(q) {
                let k = choose|k: int| 0 <= k < out.len() && out[k] == q;
                if k < prev.len() {
                    assert(prev[k] == q);
                    assert(prev.contains(q));
                    let m = choose|m: int| 0 <= m < front.len() && front[m] == q;
                    assert(pieces[m] == q);
                } else {
                    assert(q == last);
                    assert(pieces[pieces.len() - 1] == q);
                }
            }
            if pieces.contains(q) && contains_text(lowercase(q), needle) {
                let k = choose|k: int| 0 <= k < pieces.len() && pieces[k] == q;
                if k < front.len() {
                    assert(front[k] == q);
                    assert(front.contains(q));
                    assert(prev.contains(q));
                    let m = choose|m: int| 0 <= m < prev.len() && prev[m] == q;
                    assert(out[m] == q);
                } else {
                    assert(q == last);
                    assert(out[prev.len() as int] == q);
                }
            }
        }
    }
}

/// What is left after removing entries one by one: entries of the original
/// text, none comparing equal to a removed entry.
proof fn lemma_remove_each(path: Seq<char>, entries: Seq<Seq<char>>)
    ensures
        forall|q: Seq<char>|
            #[trigger] path_entries(remove_each(path, entries)).contains(q) ==> path_entries(path).contains(q)
                && forall|j: int| 0 <= j < entries.len() ==> normalized(q) != normalized(#[trigger] entries[j]),
    decreases entries.len(),
{
    if entries.len() > 0 {
        let n = normalized(entries[0]);
        let p1 = removed(path, n);
        lemma_remove_each(p1, entries.drop_first());
        lemma_remove_entries(path, n);
        lemma_entries_without(path_entries(path), n);
        assert(remove_each(path, entries) == remove_each(p1, entries.drop_first()));
        assert forall|q: Seq<char>| #[trigger] path_entries(remove_each(path, entries)).contains(q) implies path_entries(path).contains(q)
            && forall|j: int| 0 <= j < entries.len() ==> normalized(q) != normalized(#[trigger] entries[j]) by {
            assert(path_entries(p1).contains(q));
            assert(forall|j: int| 0 <= j < entries.drop_first().len() ==> normalized(q) != normalized(#[trigger] entries.drop_first()[j]));
            let k = choose|k: int| 0 <= k < path_entries(p1).len() && path_entries(p1)[k] == q;
            assert(path_entries(p1)[k] == entries_without(path_entries(path), n)[k]);
            assert forall|j: int| 0 <= j < entries.len() implies normalized(q) != normalized(#[trigger] entries[j]) by {
                if j > 0 {
                    assert(entries.drop_first()[j - 1] == entries[j]);
                }
            }
        }
    }
}

/// Removing, one by one, the entries that `remove_entries_containing` picks
/// leaves nothing for it to pick: a second call on the resulting `PATH` finds
/// no entry and so writes nothing.
pub proof fn lemma_second_removal_finds_nothing(path: Seq<char>, substring: Seq<char>)
    ensures
        entries_containing(
            scanned_entries(
                remove_each(path, entries_containing(scanned_entries(path), lowercase(substring))),
            ),
            lowercase(substring),
        ).len() == 0,
{
    let needle = lowercase(substring);
    let picked = entries_containing(scanned_entries(path), needle);
    let after = remove_each(path, picked);
    let again = entries_containing(scanned_entries(after), needle);
    if again.len() > 0 {
        let q = again[0];
        assert(again.contains(q));
        lemma_containing_members(scanned_entries(after), needle);
        assert(scanned_entries(after).contains(q) && contains_text(lowercase(q), needle));
        lemma_not_blank_members(split_on(after, semicolon()));
        assert(split_on(after, semicolon()).contains(q) && !is_blank(q));
        assert(q.len() > 0);
        lemma_non_empty_members(split_on(after, semicolon()));
        assert(path_entries(after).contains(q));
        lemma_remove_each(path, picked);
        assert(path_entries(path).contains(q));
        lemma_non_empty_members(split_on(path, semicolon()));
        assert(split_on(path, semicolon()).contains(q));
        lemma_not_blank_members(split_on(path, semicolon()));
        assert(scanned_entries(path).contains(q));
        lemma_containing_members(scanned_entries(path), needle);
        assert(picked.contains(q));
        let j = choose|j: int| 0 <= j < picked.len() && picked[j] == q;
        assert(normalized(q) != normalized(picked[j]));
    }
}

proof fn lemma_non_empty_members(pieces: Seq<Seq<char>>)
    ensures
        forall|q: Seq<char>| #[trigger] non_empty(pieces).contains(q) <==> (pieces.contains(q) && q.len() > 0),
    decreases pieces.len(),
{
    if pieces.len() > 0 {
        let front = pieces.drop_last();
        let last = pieces.last();
        lemma_non_empty_members(front);
        let prev = non_empty(front);
        let out = non_empty(pieces);
        assert(out == (if last.len() > 0 { prev.push(last) } else { prev }));
        assert forall|q: Seq<char>| #[trigger] out.contains(q) <==> (pieces.contains(q) && q.len() > 0) by {
            if out.contains(q) {
                let k = choose|k: int| 0 <= k < out.len() && out[k] == q;
                if k < prev.len() {
                    assert(prev[k] == q);
                    assert(prev.contains(q));
                    let m = choose|m: int| 0 <= m < front.len() && front[m] == q;
                    assert(pieces[m] == q);
                } else {
                    assert(q == last);
                    assert(pieces[pieces.len() - 1] == q);
                }
            }
            if pieces.contains(q) && q.len() > 0 {
                let k = choose|k: int| 0 <= k < pieces.len() && pieces[k] == q;
                if k < front.len() {
                    assert(front[k] == q);
                    assert(front.contains(q));
                    assert(prev.contains(q));
                    let m = choose|m: int| 0 <= m < prev.len() && prev[m] == q;
                    assert(out[m] == q);
                } else {
                    assert(q == last);
                    assert(out[prev.len() as int] == q);
                }
            }
        }
    }
}

/// The entries to remove from `PATH` for an executable: those of `fresh_path`
/// that hold it (`present`, as for `find_path_entries_for_exe`), except one equal
/// to `exclude_dir`.
pub fn remove_path_entries_for_exe(
    fresh_path: &str,
    present: &Vec<bool>,
    exclude_dir: Option<&str>,
) -> (r: Vec<String>)
    ensures
        string_views(r@) == removable(
            selected(scanned_entries(fresh_path@), present@),
            opt_view(exclude_dir),
        ),
{
    let entries = find_path_entries_for_exe(fresh_path, present);
    remove_entries(&entries, exclude_dir)
}

/// The entries to remove from `PATH` that contain `substring`, without regard to case.
pub fn remove_path_entries_containing(fresh_path: &str, substring: &str) -> (r: Vec<String>)
    ensures
        string_views(r@) == entries_containing(scanned_entries(fresh_path@), lowercase(substring@)),
{
    remove_entries_containing(fresh_path, substring)
}

// ---------------------------------------------------------------------------
// Deleting old directories
// ---------------------------------------------------------------------------

/// The lowercase form of `dir` with `/` read as `\`.
pub open spec fn folded(dir: Seq<char>) -> Seq<char> {
    replaced(lowercase(dir), '/', '\\')
}

/// The levels of a directory path: its non-empty `\`-separated parts, the drive
/// counting as one (`D:\dev\jdk` has three).
pub open spec fn path_levels(path: Seq<char>) -> nat {
    non_empty(split_on(path, seq!['\\'])).len()
}

/// Whether `dir` may be deleted: it exists and is a directory, is longer than 10
/// characters, is not inside or equal to a `windows` directory, is not a Program
/// Files root, and has at least 3 levels (drive, parent and target). The text
/// checks are made on the lowercase form with `/` read as `\` and trailing
/// separators dropped.
pub open spec fn deletion_allowed(dir: Seq<char>, present: bool, is_dir: bool) -> bool {
    let core = trim_end_char(folded(dir), '\\');
    &&& present && is_dir
    &&& dir.len() > 10
    &&& !contains_text(folded(dir), "\\windows\\"@)
    &&& !ends_with_text(core, "\\windows"@)
    &&& !ends_with_text(core, "\\program files"@)
    &&& !ends_with_text(core, "\\program files (x86)"@)
    &&& path_levels(core) >= 3
}

fn count_levels(path: &[char]) -> (r: usize)
    ensures
        r == path_levels(path@),
{
    let seps: Vec<char> = vec!['\\'];
    assert(seps@ =~= seq!['\\']);
    let parts = split_chars(path, seps.as_slice());
    let mut n: usize = 0;
    let mut i: usize = 0;
    while i < parts.len()
        invariant
            0 <= i <= parts@.len(),
            views(parts@) == split_on(path@, seq!['\\']),
            n == non_empty(views(parts@).take(i as int)).len(),
            n <= i,
        decreases parts@.len() - i,
    {
        proof {
            assert(views(parts@).take(i + 1).drop_last() =~= views(parts@).take(i as int));
            assert(views(parts@).take(i + 1).last() == parts@[i as int]@);
        }
        if parts[i].len() > 0 {
            n = n + 1;
        }
        i += 1;
    }
    proof {
        assert(views(parts@).take(parts@.len() as int) =~= views(parts@));
    }
    n
}

/// Whether directory `dir` is safe to delete; `present` (whether it exists) and
/// `is_dir` are what the file system says of it.
pub fn is_safe_to_delete(dir: &str, present: bool, is_dir: bool) -> (r: bool)
    ensures
        r == deletion_allowed(dir@, present, is_dir),
{
    if !present || !is_dir {
        return false;
    }
    let dcs = chars_of(dir);
    if dcs.len() <= 10 {
        return false;
    }
    let low = to_lowercase(dir);
    let lower = replace_char(low.as_str(), '/', '\\');
    let lcs = chars_of(lower.as_str());
    let core = trim_end_chars(lcs.as_slice(), '\\');
    let windows_dir = chars_of("\\windows\\");
    let windows_end = chars_of("\\windows");
    if contains_chars(lcs.as_slice(), windows_dir.as_slice()) || ends_with_chars(
        core.as_slice(),
        windows_end.as_slice(),
    ) {
        return false;
    }
    let pf = chars_of("\\program files");
    let pf86 = chars_of("\\program files (x86)");
    if ends_with_chars(core.as_slice(), pf.as_slice()) || ends_with_chars(
        core.as_slice(),
        pf86.as_slice(),
    ) {
        return false;
    }
    count_levels(core.as_slice()) >= 3
}

/// `s` with every single quote doubled, as a PowerShell single-quoted string needs.
pub open spec fn doubled_quotes(s: Seq<char>) -> Seq<char>
    decreases s.len(),
{
    if s.len() == 0 {
        Seq::<char>::empty()
    } else if s.last() == '\'' {
        doubled_quotes(s.drop_last()) + seq!['\'', '\'']
    } else {
        doubled_quotes(s.drop_last()).push(s.last())
    }
}

/// The directory prefix that a process path must start with to lie inside `dir`:
/// `dir` with `/` read as `\`, trailing separators dropped and one `\` added, so
/// that a sibling such as `D:\jdk17x` does not match `D:\jdk17`.
pub open spec fn dir_prefix(dir: Seq<char>) -> Seq<char> {
    trim_end_char(replaced(dir, '/', '\\'), '\\').push('\\')
}

/// The PowerShell command that stops every process started from inside `dir`
/// (its path starting with `dir_prefix(dir)`, without regard to case).
pub open spec fn stop_processes_spec(dir: Seq<char>) -> Seq<char> {
    "Get-Process | Where-Object { $_.Path -and $_.Path.StartsWith('"@ + doubled_quotes(
        dir_prefix(dir),
    ) + "', [System.StringComparison]::OrdinalIgnoreCase) } | Stop-Process -Force -ErrorAction SilentlyContinue"@
}

/// The PowerShell command that stops the processes started from inside `dir`,
/// so that their files can be deleted.
pub fn stop_processes_script(dir: &str) -> (r: String)
    ensures
        r@ == stop_processes_spec(dir@),
{
    let normalized = replace_char(dir, '/', '\\');
    let ncs = chars_of(normalized.as_str());
    let mut cs = trim_end_chars(ncs.as_slice(), '\\');
    cs.push('\\');
    let mut out: Vec<char> = Vec::new();
    let mut i: usize = 0;
    while i < cs.len()
        invariant
            0 <= i <= cs@.len(),
            out@ == doubled_quotes(cs@.take(i as int)),
        decreases cs@.len() - i,
    {
        proof {
            assert(cs@.take(i + 1).drop_last() =~= cs@.take(i as int));
        }
        if cs[i] == '\'' {
            out.push('\'');
            out.push('\'');
            proof {
                assert(out@ =~= doubled_quotes(cs@.take(i + 1)));
            }
        } else {
            out.push(cs[i]);
        }
        i += 1;
    }
    proof {
        assert(cs@.take(cs@.len() as int) =~= cs@);
    }
    let quoted = string_from_chars(out.as_slice());
    concat3(
        "Get-Process | Where-Object { $_.Path -and $_.Path.StartsWith('",
        quoted.as_str(),
        "', [System.StringComparison]::OrdinalIgnoreCase) } | Stop-Process -Force -ErrorAction SilentlyContinue",
    )
}

/// Whether a directory entry named `name` is kept when a directory is emptied
/// except for `keep_names`: its name equals one of them without regard to case.
pub fn keeps_entry(name: &str, keep_names: &Vec<&str>) -> (r: bool)
    ensures
        r == exists|k: int|
            0 <= k < keep_names@.len() && lowercase((#[trigger] keep_names@[k])@) == lowercase(name@),
{
    let lower = to_lowercase(name);
    let mut i: usize = 0;
    while i < keep_names.len()
        invariant
            0 <= i <= keep_names@.len(),
            lower@ == lowercase(name@),
            forall|k: int| 0 <= k < i ==> lowercase((#[trigger] keep_names@[k])@) != lowercase(name@),
        decreases keep_names@.len() - i,
    {
        let k = to_lowercase(keep_names[i]);
        if str_eq(k.as_str(), lower.as_str()) {
            return true;
        }
        i += 1;
    }
    false
}

// ---------------------------------------------------------------------------
// Uninstalling an old Node.js MSI
// ---------------------------------------------------------------------------

/// The MSI product code in an uninstall command: the text from the first `{` to
/// the first `}`, both included, when both occur and the `}` comes later.
pub open spec fn product_code(s: Seq<char>) -> Option<Seq<char>> {
    match (first_index(s, '{'), first_index(s, '}')) {
        (Some(start), Some(end)) => if end > start {
            Some(s.subrange(start, end + 1))
        } else {
            None
        },
        _ => None,
    }
}

/// Extracts the MSI product code from an `UninstallString` such as
/// `MsiExec.exe /X{XXXXXXXX-XXXX-XXXX-XXXX-XXXXXXXXXXXX}`.
pub fn extract_msi_product_code(uninstall_string: &str) -> (r: Option<String>)
    ensures
        match r {
            Some(code) => product_code(uninstall_string@) == Some(code@),
            None => product_code(uninstall_string@) is None,
        },
{
    let cs = chars_of(uninstall_string);
    let start = match find_char(cs.as_slice(), '{') {
        Some(i) => i,
        None => return None,
    };
    let end = match find_char(cs.as_slice(), '}') {
        Some(i) => i,
        None => return None,
    };
    let n: usize = cs.len();
    assert(end < n);
    if end > start {
        let piece = vstd::slice::slice_subrange(cs.as_slice(), start, end + 1);
        let code = string_from_chars(piece);
        assert(piece@ =~= cs@.subrange(start as int, end + 1));
        Some(code)
    } else {
        None
    }
}

/// Whether an installed product's display name names Node.js (in any case).
pub open spec fn names_node(display: Seq<char>) -> bool {
    contains_text(lowercase(display), "node.js"@)
}

/// The product code to uninstall for an installed product with `display` name
/// and `uninstall_string`: its MSI product code when it is Node.js.
pub fn node_uninstall_code(display: &str, uninstall_string: &str) -> (r: Option<String>)
    ensures
        !names_node(display@) ==> r is None,
        names_node(display@) ==> match r {
            Some(code) => product_code(uninstall_string@) == Some(code@),
            None => product_code(uninstall_string@) is None,
        },
{
    let lower = to_lowercase(display);
    let lcs = chars_of(lower.as_str());
    let node = chars_of("node.js");
    if !contains_chars(lcs.as_slice(), node.as_slice()) {
        return None;
    }
    extract_msi_product_code(uninstall_string)
}

/// The registry hives holding uninstall keys.
#[derive(PartialEq, Eq, Structural, Clone, Copy, Debug)]
pub enum RegistryRoot {
    LocalMachine,
    CurrentUser,
}

/// The uninstall keys scanned for an old Node.js, in scan order: the machine's,
/// the machine's 32-bit view, then the user's.
pub fn uninstall_key_paths() -> (r: Vec<(RegistryRoot, &'static str)>)
    ensures
        r@.len() == 3,
        r@[0].0 == RegistryRoot::LocalMachine && r@[0].1@
            == "SOFTWARE\\Microsoft\\Windows\\CurrentVersion\\Uninstall"@,
        r@[1].0 == RegistryRoot::LocalMachine && r@[1].1@
            == "SOFTWARE\\WOW6432Node\\Microsoft\\Windows\\CurrentVersion\\Uninstall"@,
        r@[2].0 == RegistryRoot::CurrentUser && r@[2].1@
            == "SOFTWARE\\Microsoft\\Windows\\CurrentVersion\\Uninstall"@,
{
    vec![
        (RegistryRoot::LocalMachine, "SOFTWARE\\Microsoft\\Windows\\CurrentVersion\\Uninstall"),
        (RegistryRoot::LocalMachine, "SOFTWARE\\WOW6432Node\\Microsoft\\Windows\\CurrentVersion\\Uninstall"),
        (RegistryRoot::CurrentUser, "SOFTWARE\\Microsoft\\Windows\\CurrentVersion\\Uninstall"),
    ]
}

/// The first of the installed products `(display name, uninstall command)` that
/// names Node.js and has an MSI product code, with that code.
pub open spec fn first_node_product(ps: Seq<(Seq<char>, Seq<char>)>) -> Option<(Seq<char>, Seq<char>)>
    decreases ps.len(),
{
    if ps.len() == 0 {
        None
    } else if names_node(ps[0].0) && product_code(ps[0].1) is Some {
        Some((ps[0].0, product_code(ps[0].1)->0))
    } else {
        first_node_product(ps.drop_first())
    }
}

/// Which old Node.js to uninstall, given the installed products as the
/// uninstall keys list them, in scan order: the first that names Node.js and
/// has an MSI product code (its display name and code), or none. Only that one
/// is uninstalled.
pub fn uninstall_node_msi(products: &Vec<(String, String)>) -> (r: Option<(String, String)>)
    ensures
        match r {
            Some((display, code)) => first_node_product(pair_views(products@)) == Some((display@, code@)),
            None => first_node_product(pair_views(products@)) is None,
        },
{
    let ghost pv = pair_views(products@);
    let mut i: usize = 0;
    assert(pv.skip(0) =~= pv);
    while i < products.len()
        invariant
            0 <= i <= products@.len(),
            pv == pair_views(products@),
            first_node_product(pv) == first_node_product(pv.skip(i as int)),
        decreases products@.len() - i,
    {
        let (display, uninstall) = &products[i];
        proof {
            assert(pv.skip(i as int)[0] == (display@, uninstall@));
            assert(pv.skip(i as int).drop_first() =~= pv.skip(i + 1));
        }
        match node_uninstall_code(display.as_str(), uninstall.as_str()) {
            Some(code) => {
                return Some((display.clone(), code));
            },
            None => {},
        }
        i += 1;
    }
    assert(pv.skip(products@.len() as int) =~= Seq::<(Seq<char>, Seq<char>)>::empty());
    None
}

/// The arguments of the silent `msiexec` uninstall of product `code`.
pub fn msi_uninstall_args(code: &str) -> (r: Vec<String>)
    ensures
        string_views(r@) == seq!["/x"@, code@, "/qn"@],
{
    let r = vec![owned("/x"), owned(code), owned("/qn")];
    assert(string_views(r@) =~= seq!["/x"@, code@, "/qn"@]);
    r
}

// ---------------------------------------------------------------------------
// Cleanup steps per component
// ---------------------------------------------------------------------------

/// One step of clearing an older install.
#[derive(Clone, Copy, Debug)]
pub enum CleanupStep {
    /// Report progress (phase "config") with this message.
    Status(&'static str),
    /// Uninstall the first Node.js MSI product found in the uninstall registry keys.
    UninstallNodeMsi,
    /// Remove from `PATH` every entry that holds this executable.
    RemovePathEntriesForExe(&'static str),
    /// Collect the entries of `PATH` that hold this executable, for later removal.
    ScanPathEntriesForExe(&'static str),
    /// Stop the Java processes of the old JDK directories and delete them.
    DeleteOldJdkFiles,
    /// Remove the entries collected by the last scan from `PATH`.
    RemoveScannedEntries,
    /// Remove from `PATH` every entry containing this text (in any case).
    RemovePathEntriesContaining(&'static str),
    /// Delete this environment variable.
    RemoveEnv(&'static str),
}

/// The cleanup of each component: Node.js uninstalls its MSI and clears `PATH`
/// and `NODE_HOME`; the JDK collects its `PATH` entries before deleting the old
/// directories (whose executables the scan needs), then removes them, the
/// Oracle `javapath` entries and `JAVA_HOME`; Maven clears `mvn.cmd`/`mvn.bat`
/// entries and both home variables; MySQL clears `mysql.exe` entries and
/// `MYSQL_HOME`; any other component needs nothing.
pub open spec fn cleanup_plan(component: Seq<char>) -> Seq<CleanupStep> {
    if component == "nodejs"@ {
        seq![
            CleanupStep::Status("正在清理旧版 Node.js..."),
            CleanupStep::UninstallNodeMsi,
            CleanupStep::RemovePathEntriesForExe("node.exe"),
            CleanupStep::RemoveEnv("NODE_HOME"),
            CleanupStep::Status("旧版 Node.js 清理完成"),
        ]
    } else if component == "jdk"@ {
        seq![
            CleanupStep::Status("正在清理旧版 JDK..."),
            CleanupStep::ScanPathEntriesForExe("java.exe"),
            CleanupStep::DeleteOldJdkFiles,
            CleanupStep::RemoveScannedEntries,
            CleanupStep::RemovePathEntriesContaining("Oracle\\Java\\javapath"),
            CleanupStep::RemoveEnv("JAVA_HOME"),
            CleanupStep::Status("旧版 JDK 清理完成"),
        ]
    } else if component == "maven"@ {
        seq![
            CleanupStep::Status("正在清理旧版 Maven 环境变量..."),
            CleanupStep::RemovePathEntriesForExe("mvn.cmd"),
            CleanupStep::RemovePathEntriesForExe("mvn.bat"),
            CleanupStep::RemoveEnv("MAVEN_HOME"),
            CleanupStep::RemoveEnv("M2_HOME"),
            CleanupStep::Status("旧版 Maven 环境清理完成"),
        ]
    } else if component == "mysql"@ {
        seq![
            CleanupStep::Status("正在清理旧版 MySQL 环境变量..."),
            CleanupStep::RemovePathEntriesForExe("mysql.exe"),
            CleanupStep::RemoveEnv("MYSQL_HOME"),
            CleanupStep::Status("旧版 MySQL 环境清理完成"),
        ]
    } else {
        Seq::<CleanupStep>::empty()
    }
}

/// The steps that clear an older install of `component`, in order.
pub fn resolve_conflicts(component: &str) -> (r: Vec<CleanupStep>)
    ensures
        r@ == cleanup_plan(component@),
{
    if str_eq(component, "nodejs") {
        let r = vec![
            CleanupStep::Status("正在清理旧版 Node.js..."),
            CleanupStep::UninstallNodeMsi,
            CleanupStep::RemovePathEntriesForExe("node.exe"),
            CleanupStep::RemoveEnv("NODE_HOME"),
            CleanupStep::Status("旧版 Node.js 清理完成"),
        ];
        assert(r@ =~= cleanup_plan(component@));
        r
    } else if str_eq(component, "jdk") {
        let r = vec![
            CleanupStep::Status("正在清理旧版 JDK..."),
            CleanupStep::ScanPathEntriesForExe("java.exe"),
            CleanupStep::DeleteOldJdkFiles,
            CleanupStep::RemoveScannedEntries,
            CleanupStep::RemovePathEntriesContaining("Oracle\\Java\\javapath"),
            CleanupStep::RemoveEnv("JAVA_HOME"),
            CleanupStep::Status("旧版 JDK 清理完成"),
        ];
        assert(r@ =~= cleanup_plan(component@));
        r
    } else if str_eq(component, "maven") {
        let r = vec![
            CleanupStep::Status("正在清理旧版 Maven 环境变量..."),
            CleanupStep::RemovePathEntriesForExe("mvn.cmd"),
            CleanupStep::RemovePathEntriesForExe("mvn.bat"),
            CleanupStep::RemoveEnv("MAVEN_HOME"),
            CleanupStep::RemoveEnv("M2_HOME"),
            CleanupStep::Status("旧版 Maven 环境清理完成"),
        ];
        assert(r@ =~= cleanup_plan(component@));
        r
    } else if str_eq(component, "mysql") {
        let r = vec![
            CleanupStep::Status("正在清理旧版 MySQL 环境变量..."),
            CleanupStep::RemovePathEntriesForExe("mysql.exe"),
            CleanupStep::RemoveEnv("MYSQL_HOME"),
            CleanupStep::Status("旧版 MySQL 环境清理完成"),
        ];
        assert(r@ =~= cleanup_plan(component@));
        r
    } else {
        let r: Vec<CleanupStep> = Vec::new();
        assert(r@ =~= cleanup_plan(component@));
        r
    }
}

} // verus!
