//! Stable ordering of version lists, newest first.

use vstd::prelude::*;
use crate::types::{VersionOption, OptionView, option_views};
use crate::version_catalog::semver::{
    lemma_sign_antisymmetric, lemma_sign_transitive, lemma_sign_range,
    semver_sign_from, part_or_zero, semver_parts, parse_semver, semver_sign_parts,
};

verus! {

/// Whether parsed version `a` sorts strictly before parsed version `b` (is newer).
pub open spec fn precedes(a: Seq<u32>, b: Seq<u32>) -> bool {
    semver_sign_from(a, b, 0) == -1
}

/// Where a stable insertion puts `x` into `order`: before the first element that
/// `x` strictly precedes, or at the end.
pub open spec fn insert_pos(order: Seq<int>, keys: Seq<Seq<u32>>, x: int) -> int
    decreases order.len(),
{
    if order.len() == 0 {
        0
    } else if precedes(keys[x], keys[order[0]]) {
        0
    } else {
        1 + insert_pos(order.drop_first(), keys, x)
    }
}

/// The order in which a stable sort, newest first, lists the first `n` keys:
/// each index is inserted after every earlier one it does not strictly precede.
pub open spec fn sort_order(keys: Seq<Seq<u32>>, n: nat) -> Seq<int>
    decreases n,
{
    if n == 0 {
        Seq::<int>::empty()
    } else {
        let o = sort_order(keys, (n - 1) as nat);
        o.insert(insert_pos(o, keys, n - 1), n - 1)
    }
}

/// The indices of an order as integers.
pub open spec fn order_view(order: Seq<usize>) -> Seq<int> {
    order.map_values(|i: usize| i as int)
}

/// The views of parsed version keys.
pub open spec fn key_views(keys: Seq<Vec<u32>>) -> Seq<Seq<u32>> {
    keys.map_values(|k: Vec<u32>| k@)
}

pub proof fn lemma_insert_pos_bounds(order: Seq<int>, keys: Seq<Seq<u32>>, x: int)
    ensures
        0 <= insert_pos(order, keys, x) <= order.len(),
    decreases order.len(),
{
    if order.len() > 0 {
        lemma_insert_pos_bounds(order.drop_first(), keys, x);
    }
}

pub proof fn lemma_sort_order_range(keys: Seq<Seq<u32>>, n: nat)
    ensures
        sort_order(keys, n).len() == n,
        forall|k: int| 0 <= k < n ==> 0 <= #[trigger] sort_order(keys, n)[k] < n,
    decreases n,
{
    if n > 0 {
        let o = sort_order(keys, (n - 1) as nat);
        lemma_sort_order_range(keys, (n - 1) as nat);
        lemma_insert_pos_bounds(o, keys, n - 1);
        let p = insert_pos(o, keys, n - 1);
        assert forall|k: int| 0 <= k < n implies 0 <= #[trigger] sort_order(keys, n)[k] < n by {
            if k < p {
                assert(sort_order(keys, n)[k] == o[k]);
            } else if k > p {
                assert(sort_order(keys, n)[k] == o[k - 1]);
            }
        }
    }
}

/// Orders parsed version keys newest first, keeping equal keys in their given order.
pub fn version_order(keys: &Vec<Vec<u32>>) -> (order: Vec<usize>)
    ensures
        order_view(order@) == sort_order(key_views(keys@), keys@.len()),
        forall|k: int| 0 <= k < order@.len() ==> #[trigger] order@[k] < keys@.len(),
{
    let ghost kv = key_views(keys@);
    let mut order: Vec<usize> = Vec::new();
    let mut x: usize = 0;
    while x < keys.len()
        invariant
            0 <= x <= keys@.len(),
            kv == key_views(keys@),
            order_view(order@) == sort_order(kv, x as nat),
            order@.len() == x,
            forall|k: int| 0 <= k < order@.len() ==> #[trigger] order@[k] < x,
        decreases keys@.len() - x,
    {
        let ghost o = order_view(order@);
        let mut p: usize = 0;
        proof {
            assert(o.skip(0) =~= o);
        }
        while p < order.len() && semver_sign_parts(&keys[x], &keys[order[p]]) != -1
            invariant
                0 <= p <= order@.len(),
                x < keys@.len(),
                kv == key_views(keys@),
                o == order_view(order@),
                forall|k: int| 0 <= k < order@.len() ==> #[trigger] order@[k] < x,
                insert_pos(o, kv, x as int) == p + insert_pos(o.skip(p as int), kv, x as int),
            decreases order@.len() - p,
        {
            proof {
                assert(kv[x as int] == keys@[x as int]@);
                assert(kv[o[p as int]] == keys@[order@[p as int] as int]@);
                assert(o.skip(p as int).drop_first() =~= o.skip(p + 1));
                assert(o.skip(p as int)[0] == o[p as int]);
            }
            p += 1;
        }
        proof {
            if p < order@.len() {
                assert(kv[x as int] == keys@[x as int]@);
                assert(kv[o[p as int]] == keys@[order@[p as int] as int]@);
                assert(o.skip(p as int)[0] == o[p as int]);
            }
            assert(insert_pos(o, kv, x as int) == p);
        }
        let ghost before = order@;
        order.insert(p, x);
        proof {
            assert(order_view(order@) =~= o.insert(p as int, x as int));
            assert forall|k: int| 0 <= k < order@.len() implies #[trigger] order@[k] < x + 1 by {
                if k < p {
                    assert(order@[k] == before[k]);
                } else if k > p {
                    assert(order@[k] == before[k - 1]);
                }
            }
        }
        x += 1;
    }
    order
}

/// The parsed version of every entry's value.
pub open spec fn option_keys(items: Seq<OptionView>) -> Seq<Seq<u32>> {
    items.map_values(|o: OptionView| semver_parts(o.value))
}

/// `items` sorted newest first by value; entries with equal versions keep their order.
pub open spec fn sort_options_spec(items: Seq<OptionView>) -> Seq<OptionView> {
    sort_order(option_keys(items), items.len()).map_values(|i: int| items[i])
}

/// Sorts entries newest first by value, keeping entries with equal versions in order
/// (as `sort_by(compare_semver_desc)`).
pub fn sort_options(items: &Vec<VersionOption>) -> (r: Vec<VersionOption>)
    ensures
        option_views(r@) == sort_options_spec(option_views(items@)),
{
    let ghost iv = option_views(items@);
    let mut keys: Vec<Vec<u32>> = Vec::new();
    let mut i: usize = 0;
    while i < items.len()
        invariant
            0 <= i <= items@.len(),
            iv == option_views(items@),
            key_views(keys@) == option_keys(iv).take(i as int),
            keys@.len() == i,
        decreases items@.len() - i,
    {
        let k = parse_semver(items[i].value.as_str());
        let ghost kg = k@;
        let ghost prev = keys@;
        keys.push(k);
        proof {
            assert(keys@ == prev.push(keys@[i as int]));
            assert(keys@[i as int]@ == kg);
            assert(option_keys(iv)[i as int] == semver_parts(items@[i as int].value@));
            assert(key_views(keys@) =~= key_views(prev).push(kg));
            assert(key_views(keys@) =~= option_keys(iv).take(i + 1));
        }
        i += 1;
    }
    proof {
        assert(option_keys(iv).take(items@.len() as int) =~= option_keys(iv));
    }
    let order = version_order(&keys);
    let mut r: Vec<VersionOption> = Vec::new();
    let mut j: usize = 0;
    while j < order.len()
        invariant
            0 <= j <= order@.len(),
            keys@.len() == items@.len(),
            forall|k: int| 0 <= k < order@.len() ==> #[trigger] order@[k] < keys@.len(),
            iv == option_views(items@),
            option_views(r@) == order_view(order@).take(j as int).map_values(|i: int| iv[i]),
        decreases order@.len() - j,
    {
        let ghost before = r@;
        r.push(items[order[j]].duplicate());
        proof {
            assert(option_views(r@) =~= option_views(before).push(iv[order@[j as int] as int]));
            assert(option_views(r@) =~= order_view(order@).take(j + 1).map_values(|i: int| iv[i]));
        }
        j += 1;
    }
    proof {
        assert(order_view(order@).take(order@.len() as int) =~= order_view(order@));
        assert(keys@.len() == items@.len());
    }
    r
}

} // verus!

verus! {

/// Whether `order` lists the keys newest first: no later key is strictly newer than an earlier one.
pub open spec fn newest_first(keys: Seq<Seq<u32>>, order: Seq<int>) -> bool {
    forall|i: int, j: int|
        0 <= i < j < order.len() ==> semver_sign_from(
            #[trigger] keys[order[i]],
            #[trigger] keys[order[j]],
            0,
        ) <= 0
}

/// Whether `order` keeps keys that compare equal in their given order.
pub open spec fn keeps_ties(keys: Seq<Seq<u32>>, order: Seq<int>) -> bool {
    forall|i: int, j: int|
        0 <= i < j < order.len() && semver_sign_from(#[trigger] keys[order[i]], #[trigger] keys[order[j]], 0) == 0
            ==> order[i] < order[j]
}

/// Where a stable insertion puts `x`: it strictly precedes the entry found there, and
/// none before it.
pub proof fn lemma_insert_pos_props(order: Seq<int>, keys: Seq<Seq<u32>>, x: int)
    ensures
        forall|q: int| 0 <= q < insert_pos(order, keys, x) ==> !precedes(keys[x], #[trigger] keys[order[q]]),
        insert_pos(order, keys, x) < order.len() ==> precedes(keys[x], keys[order[insert_pos(order, keys, x)]]),
    decreases order.len(),
{
    lemma_insert_pos_bounds(order, keys, x);
    if order.len() > 0 && !precedes(keys[x], keys[order[0]]) {
        let rest = order.drop_first();
        lemma_insert_pos_props(rest, keys, x);
        assert forall|q: int| 0 <= q < insert_pos(order, keys, x) implies !precedes(keys[x], #[trigger] keys[order[q]]) by {
            if q > 0 {
                assert(order[q] == rest[q - 1]);
            }
        }
        let k = insert_pos(rest, keys, x);
        lemma_insert_pos_bounds(rest, keys, x);
        assert(insert_pos(order, keys, x) == 1 + k);
        if insert_pos(order, keys, x) < order.len() {
            assert(rest[k] == order[k + 1]);
        }
    }
}

/// The sort lists every index below `n` exactly once, newest key first, and keys
/// that compare equal keep their given order.
pub proof fn lemma_sort_order(keys: Seq<Seq<u32>>, n: nat)
    requires
        n <= keys.len(),
    ensures
        sort_order(keys, n).len() == n,
        sort_order(keys, n).no_duplicates(),
        forall|k: int| 0 <= k < n ==> 0 <= #[trigger] sort_order(keys, n)[k] < n,
        newest_first(keys, sort_order(keys, n)),
        keeps_ties(keys, sort_order(keys, n)),
    decreases n,
{
    lemma_sort_order_range(keys, n);
    if n > 0 {
        let x = n - 1;
        let o = sort_order(keys, x as nat);
        lemma_sort_order(keys, x as nat);
        lemma_insert_pos_bounds(o, keys, x);
        lemma_insert_pos_props(o, keys, x);
        let p = insert_pos(o, keys, x);
        let r = sort_order(keys, n);
        assert(r == o.insert(p, x));
        assert forall|i: int, j: int| 0 <= i < r.len() && 0 <= j < r.len() && i != j implies r[i] != r[j] by {
            if i != p && j != p {
                let oi = if i < p { i } else { i - 1 };
                let oj = if j < p { j } else { j - 1 };
                assert(r[i] == o[oi] && r[j] == o[oj]);
            } else if i == p {
                let oj = if j < p { j } else { j - 1 };
                assert(r[j] == o[oj]);
            } else {
                let oi = if i < p { i } else { i - 1 };
                assert(r[i] == o[oi]);
            }
        }
        assert forall|i: int, j: int| 0 <= i < j < r.len() implies semver_sign_from(
            #[trigger] keys[r[i]], #[trigger] keys[r[j]], 0) <= 0 && (semver_sign_from(keys[r[i]], keys[r[j]], 0) == 0 ==> r[i] < r[j]) by {
            if i != p && j != p {
                let oi = if i < p { i } else { i - 1 };
                let oj = if j < p { j } else { j - 1 };
                assert(r[i] == o[oi] && r[j] == o[oj]);
                assert(oi < oj);
            } else if i == p {
                let oj = j - 1;
                assert(r[j] == o[oj]);
                assert(p < o.len());
                assert(precedes(keys[x], keys[o[p]]));
                if oj > p {
                    assert(semver_sign_from(keys[o[p]], keys[o[oj]], 0) <= 0);
                }
                lemma_sign_antisymmetric(keys[o[p]], keys[o[p]], 0);
                lemma_sign_transitive(keys[x], keys[o[p]], keys[o[oj]], 0);
            } else {
                assert(r[i] == o[i]);
                assert(!precedes(keys[x], keys[o[i]]));
                lemma_sign_antisymmetric(keys[x], keys[o[i]], 0);
                lemma_sign_range(keys[x], keys[o[i]], 0);
            }
        }
    }
}

} // verus!
