//! Operations on version lists: building entries, marking the default,
//! merging pinned versions, removing repeats and limiting the list length
//! without losing the versions that must stay selectable.

use vstd::prelude::*;
use crate::text::{owned, str_eq, texts};
use crate::types::{VersionOption, OptionView, option_views, maybe_view};

verus! {

/// Whether some entry of `items` has version value `v`.
pub open spec fn has_value(items: Seq<OptionView>, v: Seq<char>) -> bool {
    exists|i: int| 0 <= i < items.len() && #[trigger] items[i].value == v
}

/// Whether no two entries of `items` share a version value.
pub open spec fn distinct_values(items: Seq<OptionView>) -> bool {
    forall|i: int, j: int|
        0 <= i < items.len() && 0 <= j < items.len() && i != j ==> #[trigger] items[i].value
            != #[trigger] items[j].value
}

/// Builds a catalog entry.
pub fn option(value: &str, label: String, default: bool, lts: bool, source: &str) -> (r:
    VersionOption)
    ensures
        r@ == (OptionView { value: value@, label: label@, default, lts, source: source@ }),
{
    VersionOption { value: owned(value), label, default, lts, source: owned(source) }
}

/// Whether some entry of `items` has version value `v`.
pub fn any_value(items: &Vec<VersionOption>, v: &str) -> (r: bool)
    ensures
        r == has_value(option_views(items@), v@),
{
    let mut i: usize = 0;
    while i < items.len()
        invariant
            0 <= i <= items@.len(),
            forall|j: int| 0 <= j < i ==> items@[j].value@ != v@,
        decreases items@.len() - i,
    {
        if str_eq(items[i].value.as_str(), v) {
            assert(option_views(items@)[i as int].value == v@);
            return true;
        }
        i += 1;
    }
    assert forall|j: int| 0 <= j < option_views(items@).len() implies #[trigger] option_views(items@)[j].value != v@ by {
        assert(option_views(items@)[j] == items@[j]@);
    }
    false
}

// ---------------------------------------------------------------------------
// Default marking
// ---------------------------------------------------------------------------

/// `o` with its default flag set exactly when its value is `d`.
pub open spec fn marked(o: OptionView, d: Seq<char>) -> OptionView {
    OptionView { value: o.value, label: o.label, default: o.value == d, lts: o.lts, source: o.source }
}

/// Every entry of `items` with its default flag recomputed against `d`.
pub open spec fn mark_default_spec(items: Seq<OptionView>, d: Seq<char>) -> Seq<OptionView> {
    items.map_values(|o: OptionView| marked(o, d))
}

/// Marks as default exactly the entries whose value is `default_value`; the rest is unchanged.
pub fn mark_default(items: Vec<VersionOption>, default_value: &str) -> (r: Vec<VersionOption>)
    ensures
        option_views(r@) == mark_default_spec(option_views(items@), default_value@),
{
    let mut r: Vec<VersionOption> = Vec::new();
    let mut i: usize = 0;
    while i < items.len()
        invariant
            0 <= i <= items@.len(),
            option_views(r@) == mark_default_spec(option_views(items@).take(i as int), default_value@),
        decreases items@.len() - i,
    {
        let o = &items[i];
        let is_default = str_eq(o.value.as_str(), default_value);
        r.push(
            VersionOption {
                value: o.value.clone(),
                label: o.label.clone(),
                default: is_default,
                lts: o.lts,
                source: o.source.clone(),
            },
        );
        proof {
            assert(option_views(items@)[i as int] == items@[i as int]@);
            assert(mark_default_spec(option_views(items@).take(i + 1), default_value@) =~= mark_default_spec(
                option_views(items@).take(i as int),
                default_value@,
            ).push(marked(items@[i as int]@, default_value@)));
            assert(option_views(r@) =~= option_views(r@).drop_last().push(r@[i as int]@));
        }
        i += 1;
    }
    proof {
        assert(option_views(items@).take(items@.len() as int) =~= option_views(items@));
    }
    r
}

// ---------------------------------------------------------------------------
// Merging and removing repeats
// ---------------------------------------------------------------------------

/// `items` followed by each entry of `pinned` whose value is not yet in the list
/// (the list grows as pinned entries are added, so a value is added once).
pub open spec fn merge_spec(items: Seq<OptionView>, pinned: Seq<OptionView>) -> Seq<OptionView>
    decreases pinned.len(),
{
    if pinned.len() == 0 {
        items
    } else {
        let acc = merge_spec(items, pinned.drop_last());
        if has_value(acc, pinned.last().value) {
            acc
        } else {
            acc.push(pinned.last())
        }
    }
}

/// Appends the pinned entries whose values are missing from the list.
pub fn merge_options(items: Vec<VersionOption>, pinned: Vec<VersionOption>) -> (r: Vec<
    VersionOption,
>)
    ensures
        option_views(r@) == merge_spec(option_views(items@), option_views(pinned@)),
{
    let ghost pv = option_views(pinned@);
    let mut r = items;
    let ghost start = option_views(r@);
    let mut i: usize = 0;
    proof {
        assert(pv.take(0) =~= Seq::<OptionView>::empty());
    }
    while i < pinned.len()
        invariant
            0 <= i <= pinned@.len(),
            pv == option_views(pinned@),
            option_views(r@) == merge_spec(start, pv.take(i as int)),
        decreases pinned@.len() - i,
    {
        proof {
            assert(pv.take(i + 1).drop_last() =~= pv.take(i as int));
            assert(pv.take(i + 1).last() == pinned@[i as int]@);
        }
        if !any_value(&r, pinned[i].value.as_str()) {
            let ghost before = r@;
            r.push(pinned[i].duplicate());
            proof {
                assert(option_views(r@) =~= option_views(before).push(pinned@[i as int]@));
            }
        }
        i += 1;
    }
    proof {
        assert(pv.take(pinned@.len() as int) =~= pv);
    }
    r
}

/// The entries of `items` whose value has not occurred earlier: the first entry of each value.
pub open spec fn dedup_spec(items: Seq<OptionView>) -> Seq<OptionView> {
    merge_spec(Seq::<OptionView>::empty(), items)
}

/// Keeps the first entry of each version value, in order.
pub fn dedup_by_value(items: Vec<VersionOption>) -> (r: Vec<VersionOption>)
    ensures
        option_views(r@) == dedup_spec(option_views(items@)),
{
    let e: Vec<VersionOption> = Vec::new();
    assert(option_views(e@) =~= Seq::<OptionView>::empty());
    merge_options(e, items)
}

// ---------------------------------------------------------------------------
// Limiting the length
// ---------------------------------------------------------------------------

/// The first entry of `items` with value `v`, if any.
pub open spec fn first_with_value(items: Seq<OptionView>, v: Seq<char>) -> Option<OptionView>
    decreases items.len(),
{
    if items.len() == 0 {
        None
    } else if items[0].value == v {
        Some(items[0])
    } else {
        first_with_value(items.drop_first(), v)
    }
}

/// The first entry of `items` with value `v`, if any.
pub fn find_value(items: &Vec<VersionOption>, v: &str) -> (r: Option<VersionOption>)
    ensures
        maybe_view(r) == first_with_value(option_views(items@), v@),
{
    let ghost iv = option_views(items@);
    let mut i: usize = 0;
    proof {
        assert(iv.skip(0) =~= iv);
    }
    while i < items.len()
        invariant
            0 <= i <= items@.len(),
            iv == option_views(items@),
            first_with_value(iv.skip(i as int), v@) == first_with_value(iv, v@),
        decreases items@.len() - i,
    {
        proof {
            assert(iv.skip(i as int).drop_first() =~= iv.skip(i + 1));
            assert(iv.skip(i as int)[0] == items@[i as int]@);
        }
        if str_eq(items[i].value.as_str(), v) {
            return Some(items[i].duplicate());
        }
        i += 1;
    }
    None
}

/// The list cut to `max` entries, where the project default `d` is kept: when the
/// cut dropped every entry with value `d`, the first such entry replaces the last
/// kept one. A `max` of 0, or a list no longer than `max`, leaves the list as it is.
pub open spec fn keep_default_spec(items: Seq<OptionView>, max: nat, d: Seq<char>) -> Seq<OptionView> {
    if max == 0 || items.len() <= max {
        items
    } else {
        let t = items.take(max as int);
        match first_with_value(items, d) {
            Some(x) => if has_value(t, d) {
                t
            } else {
                t.drop_last().push(x)
            },
            None => t,
        }
    }
}

/// Cuts the list to `max_len` entries without dropping the default version.
pub fn limit_keep_default(items: Vec<VersionOption>, max_len: usize, default_value: &str) -> (r:
    Vec<VersionOption>)
    ensures
        option_views(r@) == keep_default_spec(option_views(items@), max_len as nat, default_value@),
{
    if max_len == 0 || items.len() <= max_len {
        return items;
    }
    let ghost iv = option_views(items@);
    let default_item = find_value(&items, default_value);
    let mut r = items;
    r.truncate(max_len);
    proof {
        assert(option_views(r@) =~= iv.take(max_len as int));
    }
    match default_item {
        Some(x) => {
            if !any_value(&r, default_value) {
                let ghost t = r@;
                r.pop();
                r.push(x);
                proof {
                    assert(option_views(r@) =~= option_views(t).drop_last().push(x@));
                }
            }
        },
        None => {},
    }
    r
}

/// The entries that `required` asks for: for each required value in order, the
/// first entry of `items` with that value, when there is one.
pub open spec fn required_items_spec(items: Seq<OptionView>, req: Seq<Seq<char>>) -> Seq<OptionView>
    decreases req.len(),
{
    if req.len() == 0 {
        Seq::<OptionView>::empty()
    } else {
        let prev = required_items_spec(items, req.drop_last());
        match first_with_value(items, req.last()) {
            Some(x) => prev.push(x),
            None => prev,
        }
    }
}

/// The index of the last entry of `res` whose value is not required, if any.
pub open spec fn last_unrequired(res: Seq<OptionView>, req: Seq<Seq<char>>) -> Option<int>
    decreases res.len(),
{
    if res.len() == 0 {
        None
    } else if !req.contains(res.last().value) {
        Some(res.len() - 1)
    } else {
        last_unrequired(res.drop_last(), req)
    }
}

/// The index that `last_unrequired` gives is that of an entry whose value is not required.
pub proof fn lemma_last_unrequired(res: Seq<OptionView>, req: Seq<Seq<char>>)
    ensures
        last_unrequired(res, req) matches Some(k) ==> 0 <= k < res.len() && !req.contains(
            res[k].value,
        ),
        last_unrequired(res, req) is None ==> forall|i: int|
            0 <= i < res.len() ==> req.contains(#[trigger] res[i].value),
    decreases res.len(),
{
    if res.len() > 0 {
        lemma_last_unrequired(res.drop_last(), req);
        if req.contains(res.last().value) {
            assert forall|i: int| 0 <= i < res.len() - 1 implies res.drop_last()[i] == res[i] by {}
        }
    }
}

/// One step of putting a required entry back: nothing when its value is present;
/// otherwise, when the list is full, the last entry that is not required (or else
/// the last entry) leaves, and the required entry is appended.
pub open spec fn keep_step(res: Seq<OptionView>, item: OptionView, req: Seq<Seq<char>>, max: nat) -> Seq<OptionView> {
    if has_value(res, item.value) {
        res
    } else {
        let base = if res.len() >= max {
            match last_unrequired(res, req) {
                Some(k) => res.remove(k),
                None => res.drop_last(),
            }
        } else {
            res
        };
        base.push(item)
    }
}

/// `keep_step` applied to each of `pending` in order.
pub open spec fn keep_all(res: Seq<OptionView>, pending: Seq<OptionView>, req: Seq<Seq<char>>, max: nat) -> Seq<OptionView>
    decreases pending.len(),
{
    if pending.len() == 0 {
        res
    } else {
        keep_step(keep_all(res, pending.drop_last(), req, max), pending.last(), req, max)
    }
}

/// The list cut to `max` entries, after which the entries that `req` asks for are put
/// back in the order of `req`. A `max` of 0, or a list no longer than `max`, leaves it as it is.
pub open spec fn keep_values_spec(items: Seq<OptionView>, max: nat, req: Seq<Seq<char>>) -> Seq<OptionView> {
    if max == 0 || items.len() <= max {
        items
    } else {
        keep_all(items.take(max as int), required_items_spec(items, req), req, max)
    }
}

/// Whether `v` is one of `values`.
pub fn text_in(values: &[&str], v: &str) -> (r: bool)
    ensures
        r == texts(values@).contains(v@),
{
    let mut i: usize = 0;
    while i < values.len()
        invariant
            0 <= i <= values@.len(),
            forall|j: int| 0 <= j < i ==> values@[j]@ != v@,
        decreases values@.len() - i,
    {
        if str_eq(values[i], v) {
            assert(texts(values@)[i as int] == v@);
            return true;
        }
        i += 1;
    }
    assert forall|j: int| 0 <= j < texts(values@).len() implies texts(values@)[j] != v@ by {
        assert(texts(values@)[j] == values@[j]@);
    }
    false
}

fn required_items(items: &Vec<VersionOption>, required_values: &[&str]) -> (r: Vec<VersionOption>)
    ensures
        option_views(r@) == required_items_spec(option_views(items@), texts(required_values@)),
{
    let mut r: Vec<VersionOption> = Vec::new();
    let mut i: usize = 0;
    while i < required_values.len()
        invariant
            0 <= i <= required_values@.len(),
            option_views(r@) == required_items_spec(option_views(items@), texts(required_values@).take(i as int)),
        decreases required_values@.len() - i,
    {
        proof {
            assert(texts(required_values@).take(i + 1).drop_last() =~= texts(required_values@).take(i as int));
            assert(texts(required_values@).take(i + 1).last() == required_values@[i as int]@);
        }
        match find_value(items, required_values[i]) {
            Some(x) => {
                let ghost before = r@;
                r.push(x);
                proof {
                    assert(option_views(r@) =~= option_views(before).push(x@));
                }
            },
            None => {},
        }
        i += 1;
    }
    proof {
        assert(texts(required_values@).take(required_values@.len() as int) =~= texts(required_values@));
    }
    r
}

fn find_last_unrequired(res: &Vec<VersionOption>, required_values: &[&str]) -> (r: Option<usize>)
    ensures
        match r {
            Some(k) => last_unrequired(option_views(res@), texts(required_values@)) == Some(k as int),
            None => last_unrequired(option_views(res@), texts(required_values@)) is None,
        },
{
    let ghost rv = option_views(res@);
    let mut n: usize = res.len();
    proof {
        assert(rv.take(n as int) =~= rv);
    }
    while n > 0
        invariant
            0 <= n <= res@.len(),
            rv == option_views(res@),
            last_unrequired(rv.take(n as int), texts(required_values@)) == last_unrequired(rv, texts(required_values@)),
        decreases n,
    {
        proof {
            assert(rv.take(n as int).drop_last() =~= rv.take(n - 1));
            assert(rv.take(n as int).last() == res@[n - 1]@);
        }
        if !text_in(required_values, res[n - 1].value.as_str()) {
            return Some(n - 1);
        }
        n -= 1;
    }
    None
}

/// Cuts the list to `max_len` entries, then puts back the entries that
/// `required_values` asks for, evicting entries that are not required first.
pub fn limit_keep_values(items: Vec<VersionOption>, max_len: usize, required_values: &[&str]) -> (r: Vec<VersionOption>)
    ensures
        option_views(r@) == keep_values_spec(option_views(items@), max_len as nat, texts(required_values@)),
{
    if max_len == 0 || items.len() <= max_len {
        return items;
    }
    let ghost iv = option_views(items@);
    let pending = required_items(&items, required_values);
    let ghost pv = option_views(pending@);
    let mut r = items;
    r.truncate(max_len);
    let ghost start = option_views(r@);
    proof {
        assert(start =~= iv.take(max_len as int));
    }
    let mut i: usize = 0;
    proof {
        assert(pv.take(0) =~= Seq::<OptionView>::empty());
    }
    while i < pending.len()
        invariant
            0 <= i <= pending@.len(),
            max_len > 0,
            pv == option_views(pending@),
            option_views(r@) == keep_all(start, pv.take(i as int), texts(required_values@), max_len as nat),
        decreases pending@.len() - i,
    {
        proof {
            assert(pv.take(i + 1).drop_last() =~= pv.take(i as int));
            assert(pv.take(i + 1).last() == pending@[i as int]@);
        }
        let item = pending[i].duplicate();
        if !any_value(&r, item.value.as_str()) {
            if r.len() >= max_len {
                proof {
                    lemma_last_unrequired(option_views(r@), texts(required_values@));
                }
                match find_last_unrequired(&r, required_values) {
                    Some(k) => {
                        let ghost before = r@;
                        r.remove(k);
                        proof {
                            assert(option_views(r@) =~= option_views(before).remove(k as int));
                        }
                    },
                    None => {
                        let ghost before = r@;
                        r.pop();
                        proof {
                            assert(option_views(r@) =~= option_views(before).drop_last());
                        }
                    },
                }
            }
            let ghost before = r@;
            r.push(item);
            proof {
                assert(option_views(r@) =~= option_views(before).push(item@));
            }
        }
        i += 1;
    }
    proof {
        assert(pv.take(pending@.len() as int) =~= pv);
    }
    r
}


/// `items` without entries whose value equals that of the entry kept just before
/// (as `Vec::dedup` on the values: each run of equal values keeps its first entry).
pub open spec fn dedup_adjacent_spec(items: Seq<OptionView>) -> Seq<OptionView>
    decreases items.len(),
{
    if items.len() == 0 {
        Seq::<OptionView>::empty()
    } else {
        let prev = dedup_adjacent_spec(items.drop_last());
        if prev.len() > 0 && prev.last().value == items.last().value {
            prev
        } else {
            prev.push(items.last())
        }
    }
}

/// Drops each entry whose value repeats the value of the entry kept before it.
pub fn dedup_adjacent(items: &Vec<VersionOption>) -> (r: Vec<VersionOption>)
    ensures
        option_views(r@) == dedup_adjacent_spec(option_views(items@)),
{
    let ghost iv = option_views(items@);
    let mut r: Vec<VersionOption> = Vec::new();
    let mut i: usize = 0;
    while i < items.len()
        invariant
            0 <= i <= items@.len(),
            iv == option_views(items@),
            option_views(r@) == dedup_adjacent_spec(iv.take(i as int)),
        decreases items@.len() - i,
    {
        proof {
            assert(iv.take(i + 1).drop_last() =~= iv.take(i as int));
            assert(iv.take(i + 1).last() == items@[i as int]@);
        }
        let same = r.len() > 0 && str_eq(r[r.len() - 1].value.as_str(), items[i].value.as_str());
        if !same {
            let ghost before = r@;
            r.push(items[i].duplicate());
            proof {
                assert(option_views(r@) =~= option_views(before).push(items@[i as int]@));
            }
        } else {
            proof {
                assert(option_views(r@).last() == r@[r@.len() - 1]@);
            }
        }
        i += 1;
    }
    proof {
        assert(iv.take(items@.len() as int) =~= iv);
    }
    r
}

} // verus!
