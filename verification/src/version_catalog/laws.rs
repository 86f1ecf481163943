//! What holds of the version-list operations on every input.

use vstd::prelude::*;
use crate::types::OptionView;
use crate::version_catalog::options::{
    has_value, distinct_values, merge_spec, dedup_spec, first_with_value, keep_default_spec,
    mark_default_spec, marked, keep_values_spec, keep_all, keep_step, required_items_spec,
    last_unrequired, lemma_last_unrequired,
};

verus! {

/// What `first_with_value` finds is an entry of the list with the asked value;
/// when it finds nothing, no entry has that value.
pub proof fn lemma_first_with_value(items: Seq<OptionView>, v: Seq<char>)
    ensures
        first_with_value(items, v) matches Some(x) ==> items.contains(x) && x.value == v,
        first_with_value(items, v) is None ==> !has_value(items, v),
    decreases items.len(),
{
    if items.len() > 0 {
        lemma_first_with_value(items.drop_first(), v);
        if items[0].value != v {
            if let Some(x) = first_with_value(items.drop_first(), v) {
                let k = choose|k: int| 0 <= k < items.drop_first().len() && items.drop_first()[k] == x;
                assert(items[k + 1] == x);
            } else {
                assert forall|i: int| 0 <= i < items.len() implies items[i].value != v by {
                    if i > 0 {
                        assert(items[i] == items.drop_first()[i - 1]);
                    }
                }
            }
        } else {
            assert(items[0] == items[0]);
        }
    }
}

/// Marking the default changes only the default flags, and afterwards exactly the
/// entries whose value is the default are marked.
pub proof fn lemma_mark_default(items: Seq<OptionView>, d: Seq<char>)
    ensures
        mark_default_spec(items, d).len() == items.len(),
        forall|i: int|
            0 <= i < items.len() ==> {
                let r = #[trigger] mark_default_spec(items, d)[i];
                &&& r.default == (items[i].value == d)
                &&& r.value == items[i].value
                &&& r.label == items[i].label
                &&& r.lts == items[i].lts
                &&& r.source == items[i].source
            },
{
}

/// Merging pinned entries keeps the list as a prefix, adds exactly the missing
/// values, never repeats a value the list did not repeat, and adds nothing that
/// was not pinned.
pub proof fn lemma_merge(items: Seq<OptionView>, pinned: Seq<OptionView>)
    ensures
        merge_spec(items, pinned).len() >= items.len(),
        merge_spec(items, pinned).subrange(0, items.len() as int) == items,
        forall|v: Seq<char>|
            #[trigger] has_value(merge_spec(items, pinned), v) <==> (has_value(items, v)
                || has_value(pinned, v)),
        distinct_values(items) ==> distinct_values(merge_spec(items, pinned)),
        forall|x: OptionView|
            #[trigger] merge_spec(items, pinned).contains(x) ==> items.contains(x)
                || pinned.contains(x),
    decreases pinned.len(),
{
    if pinned.len() > 0 {
        let rest = pinned.drop_last();
        let p = pinned.last();
        lemma_merge(items, rest);
        let acc = merge_spec(items, rest);
        assert forall|v: Seq<char>| has_value(pinned, v) <==> (has_value(rest, v) || p.value == v) by {
            if has_value(pinned, v) {
                let i = choose|i: int| 0 <= i < pinned.len() && #[trigger] pinned[i].value == v;
                if i < pinned.len() - 1 {
                    assert(rest[i] == pinned[i]);
                }
            }
            if has_value(rest, v) {
                let i = choose|i: int| 0 <= i < rest.len() && #[trigger] rest[i].value == v;
                assert(pinned[i] == rest[i]);
            }
            if p.value == v {
                assert(pinned[pinned.len() - 1].value == v);
            }
        }
        assert forall|x: OptionView| rest.contains(x) implies pinned.contains(x) by {
            let i = choose|i: int| 0 <= i < rest.len() && rest[i] == x;
            assert(pinned[i] == x);
        }
        assert(pinned.contains(p)) by {
            assert(pinned[pinned.len() - 1] == p);
        }
        if !has_value(acc, p.value) {
            let m = acc.push(p);
            assert(m.subrange(0, items.len() as int) =~= acc.subrange(0, items.len() as int));
            assert forall|v: Seq<char>| #[trigger] has_value(m, v) <==> (has_value(acc, v) || p.value == v) by {
                if has_value(m, v) {
                    let i = choose|i: int| 0 <= i < m.len() && #[trigger] m[i].value == v;
                    if i < acc.len() {
                        assert(acc[i] == m[i]);
                    }
                }
                if has_value(acc, v) {
                    let i = choose|i: int| 0 <= i < acc.len() && #[trigger] acc[i].value == v;
                    assert(m[i] == acc[i]);
                }
                if p.value == v {
                    assert(m[acc.len() as int] == p);
                }
            }
            if distinct_values(items) {
                assert forall|i: int, j: int|
                    0 <= i < m.len() && 0 <= j < m.len() && i != j implies #[trigger] m[i].value
                        != #[trigger] m[j].value by {
                    if i < acc.len() && j < acc.len() {
                        assert(m[i] == acc[i] && m[j] == acc[j]);
                    } else if i < acc.len() {
                        assert(m[i] == acc[i]);
                    } else {
                        assert(m[j] == acc[j]);
                    }
                }
            }
            assert forall|x: OptionView| #[trigger] m.contains(x) implies items.contains(x)
                || pinned.contains(x) by {
                let i = choose|i: int| 0 <= i < m.len() && m[i] == x;
                if i < acc.len() {
                    assert(acc[i] == x);
                    assert(acc.contains(x));
                }
            }
        }
    }
}

/// Removing repeated values leaves each value once, keeps every value, adds
/// nothing, and leaves a list without repeats as it is.
pub proof fn lemma_dedup(items: Seq<OptionView>)
    ensures
        distinct_values(dedup_spec(items)),
        forall|v: Seq<char>| #[trigger] has_value(dedup_spec(items), v) <==> has_value(items, v),
        forall|x: OptionView| #[trigger] dedup_spec(items).contains(x) ==> items.contains(x),
        distinct_values(items) ==> dedup_spec(items) == items,
{
    let e = Seq::<OptionView>::empty();
    lemma_merge(e, items);
    assert forall|v: Seq<char>| !has_value(e, v) by {}
    if distinct_values(items) {
        lemma_dedup_distinct(items);
    }
}

proof fn lemma_dedup_distinct(items: Seq<OptionView>)
    requires
        distinct_values(items),
    ensures
        merge_spec(Seq::<OptionView>::empty(), items) == items,
    decreases items.len(),
{
    if items.len() > 0 {
        let rest = items.drop_last();
        assert(distinct_values(rest)) by {
            assert forall|i: int, j: int|
                0 <= i < rest.len() && 0 <= j < rest.len() && i != j implies #[trigger] rest[i].value
                    != #[trigger] rest[j].value by {
                assert(rest[i] == items[i] && rest[j] == items[j]);
            }
        }
        lemma_dedup_distinct(rest);
        assert(!has_value(rest, items.last().value)) by {
            if has_value(rest, items.last().value) {
                let i = choose|i: int| 0 <= i < rest.len() && #[trigger] rest[i].value == items.last().value;
                assert(items[i] == rest[i]);
                assert(items[i].value == items[items.len() - 1].value);
            }
        }
        assert(rest.push(items.last()) =~= items);
    }
}

/// Limiting the length while keeping the default: a list longer than a positive
/// limit is cut to exactly the limit; a shorter one, or a zero limit, leaves it as
/// it is; the default version is never lost; and every entry comes from the list.
pub proof fn lemma_keep_default(items: Seq<OptionView>, max: nat, d: Seq<char>)
    ensures
        max > 0 && items.len() > max ==> keep_default_spec(items, max, d).len() == max,
        max == 0 || items.len() <= max ==> keep_default_spec(items, max, d) == items,
        has_value(items, d) ==> has_value(keep_default_spec(items, max, d), d),
        forall|x: OptionView|
            #[trigger] keep_default_spec(items, max, d).contains(x) ==> items.contains(x),
{
    lemma_first_with_value(items, d);
    if max > 0 && items.len() > max {
        let t = items.take(max as int);
        assert forall|x: OptionView| t.contains(x) implies items.contains(x) by {
            let i = choose|i: int| 0 <= i < t.len() && t[i] == x;
            assert(items[i] == x);
        }
        if let Some(x) = first_with_value(items, d) {
            if !has_value(t, d) {
                let r = t.drop_last().push(x);
                assert(r[r.len() - 1].value == d);
                assert forall|y: OptionView| #[trigger] r.contains(y) implies items.contains(y) by {
                    let i = choose|i: int| 0 <= i < r.len() && r[i] == y;
                    if i < r.len() - 1 {
                        assert(t[i] == y);
                        assert(t.contains(y));
                    }
                }
            }
        }
    }
}


/// The versions that `req` asks for and that occur in `items`.
pub open spec fn present_required(items: Seq<OptionView>, req: Seq<Seq<char>>) -> Set<Seq<char>> {
    req.to_set().filter(|v: Seq<char>| has_value(items, v))
}

/// What `required_items_spec` collects comes from the list, carries a required
/// value, and covers every required value that occurs in the list.
pub proof fn lemma_required_items(items: Seq<OptionView>, req: Seq<Seq<char>>)
    ensures
        forall|j: int|
            0 <= j < required_items_spec(items, req).len() ==> items.contains(
                #[trigger] required_items_spec(items, req)[j],
            ) && req.contains(required_items_spec(items, req)[j].value),
        forall|v: Seq<char>|
            req.contains(v) && has_value(items, v) ==> #[trigger] has_value(
                required_items_spec(items, req),
                v,
            ),
    decreases req.len(),
{
    if req.len() > 0 {
        let rest = req.drop_last();
        lemma_required_items(items, rest);
        lemma_first_with_value(items, req.last());
        let prev = required_items_spec(items, rest);
        let cur = required_items_spec(items, req);
        assert forall|j: int| 0 <= j < cur.len() implies items.contains(#[trigger] cur[j])
            && req.contains(cur[j].value) by {
            if j < prev.len() {
                assert(cur[j] == prev[j]);
                let k = choose|k: int| 0 <= k < rest.len() && rest[k] == prev[j].value;
                assert(req[k] == rest[k]);
            } else {
                assert(req[req.len() - 1] == req.last());
            }
        }
        assert forall|v: Seq<char>| req.contains(v) && has_value(items, v) implies #[trigger] has_value(cur, v) by {
            let k = choose|k: int| 0 <= k < req.len() && req[k] == v;
            if k < req.len() - 1 {
                assert(rest[k] == v);
                assert(rest.contains(v));
                assert(has_value(prev, v));
                let i = choose|i: int| 0 <= i < prev.len() && #[trigger] prev[i].value == v;
                assert(cur[i] == prev[i]);
            } else {
                assert(cur[cur.len() - 1].value == v);
            }
        }
    }
}

/// Putting required entries back never changes the length of a full list.
pub proof fn lemma_keep_all_len(res: Seq<OptionView>, pending: Seq<OptionView>, req: Seq<Seq<char>>, max: nat)
    requires
        res.len() == max,
        max > 0,
    ensures
        keep_all(res, pending, req, max).len() == max,
    decreases pending.len(),
{
    if pending.len() > 0 {
        lemma_keep_all_len(res, pending.drop_last(), req, max);
        lemma_last_unrequired(keep_all(res, pending.drop_last(), req, max), req);
    }
}

/// Putting required entries back adds nothing but those entries.
pub proof fn lemma_keep_all_members(res: Seq<OptionView>, pending: Seq<OptionView>, req: Seq<Seq<char>>, max: nat)
    requires
        res.len() == max,
        max > 0,
    ensures
        forall|x: OptionView|
            #[trigger] keep_all(res, pending, req, max).contains(x) ==> res.contains(x)
                || pending.contains(x),
    decreases pending.len(),
{
    if pending.len() > 0 {
        let rest = pending.drop_last();
        let p = pending.last();
        lemma_keep_all_members(res, rest, req, max);
        lemma_keep_all_len(res, rest, req, max);
        let acc = keep_all(res, rest, req, max);
        lemma_last_unrequired(acc, req);
        let out = keep_all(res, pending, req, max);
        assert(pending[pending.len() - 1] == p);
        assert forall|x: OptionView| #[trigger] out.contains(x) implies res.contains(x)
            || pending.contains(x) by {
            let i = choose|i: int| 0 <= i < out.len() && out[i] == x;
            let in_acc = if has_value(acc, p.value) {
                acc[i] == x
            } else {
                match last_unrequired(acc, req) {
                    Some(k) => i == out.len() - 1 || (i < k && acc[i] == x) || (i >= k && acc[i + 1] == x),
                    None => i == out.len() - 1 || acc[i] == x,
                }
            };
            assert(in_acc);
            if x != p {
                assert(acc.contains(x));
                if rest.contains(x) {
                    let k = choose|k: int| 0 <= k < rest.len() && rest[k] == x;
                    assert(pending[k] == x);
                }
            }
        }
    }
}

proof fn lemma_keep_all_keeps(
    res: Seq<OptionView>,
    pending: Seq<OptionView>,
    items: Seq<OptionView>,
    req: Seq<Seq<char>>,
    max: nat,
)
    requires
        res.len() == max,
        max > 0,
        distinct_values(res),
        forall|x: OptionView| #[trigger] res.contains(x) ==> items.contains(x),
        forall|j: int|
            0 <= j < pending.len() ==> items.contains(#[trigger] pending[j]) && req.contains(
                pending[j].value,
            ),
        present_required(items, req).len() <= max,
    ensures
        distinct_values(keep_all(res, pending, req, max)),
        forall|x: OptionView|
            #[trigger] keep_all(res, pending, req, max).contains(x) ==> items.contains(x),
        forall|j: int|
            0 <= j < pending.len() ==> has_value(
                keep_all(res, pending, req, max),
                #[trigger] pending[j].value,
            ),
    decreases pending.len(),
{
    broadcast use vstd::seq_lib::seq_to_set_is_finite;

    if pending.len() > 0 {
        let rest = pending.drop_last();
        let p = pending.last();
        assert forall|j: int| 0 <= j < rest.len() implies items.contains(#[trigger] rest[j])
            && req.contains(rest[j].value) by {
            assert(rest[j] == pending[j]);
        }
        lemma_keep_all_keeps(res, rest, items, req, max);
        lemma_keep_all_len(res, rest, req, max);
        let acc = keep_all(res, rest, req, max);
        lemma_last_unrequired(acc, req);
        let out = keep_all(res, pending, req, max);
        assert(items.contains(p) && req.contains(p.value)) by {
            assert(pending[pending.len() - 1] == p);
        }
        if has_value(acc, p.value) {
            assert forall|j: int| 0 <= j < pending.len() implies has_value(out, #[trigger] pending[j].value) by {
                if j < rest.len() {
                    assert(rest[j] == pending[j]);
                }
            }
        } else {
            let base = match last_unrequired(acc, req) {
                Some(k) => acc.remove(k),
                None => acc.drop_last(),
            };
            match last_unrequired(acc, req) {
                Some(k) => {
                    assert(out == base.push(p));
                    // The entry that leaves is not required, so every earlier required entry stays.
                    assert forall|j: int| 0 <= j < pending.len() implies has_value(out, #[trigger] pending[j].value) by {
                        if j < rest.len() {
                            assert(rest[j] == pending[j]);
                            assert(has_value(acc, rest[j].value));
                            let i = choose|i: int| 0 <= i < acc.len() && #[trigger] acc[i].value == rest[j].value;
                            assert(i != k);
                            if i < k {
                                assert(out[i] == acc[i]);
                            } else {
                                assert(out[i - 1] == acc[i]);
                            }
                        } else {
                            assert(out[out.len() - 1] == p);
                        }
                    }
                    assert forall|i: int, j: int|
                        0 <= i < out.len() && 0 <= j < out.len() && i != j implies #[trigger] out[i].value
                            != #[trigger] out[j].value by {
                        let ai = if i < k { i } else { i + 1 };
                        let aj = if j < k { j } else { j + 1 };
                        if i < out.len() - 1 && j < out.len() - 1 {
                            assert(out[i] == acc[ai] && out[j] == acc[aj]);
                        } else if i < out.len() - 1 {
                            assert(out[i] == acc[ai]);
                        } else {
                            assert(out[j] == acc[aj]);
                        }
                    }
                    assert forall|x: OptionView| #[trigger] out.contains(x) implies items.contains(x) by {
                        let i = choose|i: int| 0 <= i < out.len() && out[i] == x;
                        if i < out.len() - 1 {
                            let ai = if i < k { i } else { i + 1 };
                            assert(acc[ai] == x);
                            assert(acc.contains(x));
                        }
                    }
                },
                None => {
                    // Every entry is required and they are pairwise different, so the
                    // list already holds `max` different present required values; one
                    // more would exceed the count of such values.
                    let vals = acc.map_values(|o: OptionView| o.value);
                    assert(vals.no_duplicates()) by {
                        assert forall|i: int, j: int|
                            0 <= i < vals.len() && 0 <= j < vals.len() && i != j implies vals[i] != vals[j] by {
                            assert(vals[i] == acc[i].value && vals[j] == acc[j].value);
                        }
                    }
                    vals.unique_seq_to_set();
                    let s2 = vals.to_set().insert(p.value);
                    assert(!vals.to_set().contains(p.value)) by {
                        if vals.to_set().contains(p.value) {
                            let i = choose|i: int| 0 <= i < vals.len() && vals[i] == p.value;
                            assert(acc[i].value == p.value);
                        }
                    }
                    assert(s2.len() == max + 1);
                    let present = present_required(items, req);
                    assert(s2.subset_of(present)) by {
                        assert forall|v: Seq<char>| s2.contains(v) implies present.contains(v) by {
                            if v == p.value {
                                let k = choose|k: int| 0 <= k < items.len() && items[k] == p;
                                assert(items[k].value == v);
                            } else {
                                let i = choose|i: int| 0 <= i < vals.len() && vals[i] == v;
                                assert(acc[i].value == v);
                                assert(req.contains(acc[i].value));
                                assert(acc.contains(acc[i]));
                                let k = choose|k: int| 0 <= k < items.len() && items[k] == acc[i];
                                assert(items[k].value == v);
                            }
                        }
                    }
                    vstd::set_lib::lemma_len_subset(present, req.to_set());
                    vstd::set_lib::lemma_len_subset(s2, present);
                    assert(false);
                },
            }
        }
    }
}

/// Limiting the length while keeping required versions: a list longer than a
/// positive limit is cut to exactly the limit; a shorter one, or a zero limit,
/// leaves it as it is; every entry comes from the list.
pub proof fn lemma_keep_values(items: Seq<OptionView>, max: nat, req: Seq<Seq<char>>)
    ensures
        max > 0 && items.len() > max ==> keep_values_spec(items, max, req).len() == max,
        max == 0 || items.len() <= max ==> keep_values_spec(items, max, req) == items,
        forall|x: OptionView|
            #[trigger] keep_values_spec(items, max, req).contains(x) ==> items.contains(x),
{
    if max > 0 && items.len() > max {
        let t = items.take(max as int);
        let pending = required_items_spec(items, req);
        lemma_keep_all_len(t, pending, req, max);
        lemma_keep_all_members(t, pending, req, max);
        lemma_required_items(items, req);
        assert forall|x: OptionView| #[trigger] keep_values_spec(items, max, req).contains(x) implies items.contains(x) by {
            if t.contains(x) {
                let i = choose|i: int| 0 <= i < t.len() && t[i] == x;
                assert(items[i] == x);
            } else {
                let j = choose|j: int| 0 <= j < pending.len() && pending[j] == x;
                assert(items.contains(pending[j]));
            }
        }
    }
}

/// The versions that must stay selectable do stay: when the list repeats no value
/// and no more required values occur in it than the limit allows, every required
/// value that occurs in the list occurs in the limited list, which repeats no
/// value either.
pub proof fn lemma_keep_values_keeps_required(items: Seq<OptionView>, max: nat, req: Seq<Seq<char>>)
    requires
        distinct_values(items),
        present_required(items, req).len() <= max,
    ensures
        distinct_values(keep_values_spec(items, max, req)),
        forall|v: Seq<char>|
            req.contains(v) && has_value(items, v) ==> #[trigger] has_value(
                keep_values_spec(items, max, req),
                v,
            ),
{
    if max > 0 && items.len() > max {
        let t = items.take(max as int);
        let pending = required_items_spec(items, req);
        lemma_required_items(items, req);
        assert(distinct_values(t)) by {
            assert forall|i: int, j: int|
                0 <= i < t.len() && 0 <= j < t.len() && i != j implies #[trigger] t[i].value
                    != #[trigger] t[j].value by {
                assert(t[i] == items[i] && t[j] == items[j]);
            }
        }
        assert forall|x: OptionView| #[trigger] t.contains(x) implies items.contains(x) by {
            let i = choose|i: int| 0 <= i < t.len() && t[i] == x;
            assert(items[i] == x);
        }
        lemma_keep_all_keeps(t, pending, items, req, max);
        assert forall|v: Seq<char>| req.contains(v) && has_value(items, v) implies #[trigger] has_value(
            keep_values_spec(items, max, req), v) by {
            assert(has_value(pending, v));
            let j = choose|j: int| 0 <= j < pending.len() && #[trigger] pending[j].value == v;
            assert(has_value(keep_all(t, pending, req, max), pending[j].value));
        }
    }
}

} // verus!
