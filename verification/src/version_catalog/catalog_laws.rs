//! What every catalog promises whatever the sources answered: the versions the
//! installer relies on are offered, no version is offered twice, the list is no
//! longer than its display limit, and exactly the project default is marked.

use vstd::prelude::*;
use crate::text::{decimal, digit_char};
use crate::types::OptionView;
use crate::version_catalog::options::{
    has_value, distinct_values, merge_spec, dedup_spec, keep_values_spec, mark_default_spec,
};
use crate::version_catalog::laws::{
    lemma_merge, lemma_dedup, lemma_keep_values, lemma_keep_values_keeps_required,
    lemma_mark_default, present_required,
};
use crate::version_catalog::sort::{
    sort_order, sort_options_spec, option_keys, lemma_sort_order, insert_pos,
    lemma_insert_pos_bounds,
};
use crate::version_policy::{
    DEFAULT_MYSQL, MYSQL_MAX_OPTIONS, mysql_required_spec, DEFAULT_NODEJS, NODE_MAX_OPTIONS,
    node_required_spec, node_classic_lts_spec, DEFAULT_JDK, JDK_MAX_OPTIONS, jdk_required_spec,
    jdk_classic_majors_spec, DEFAULT_TOMCAT, TOMCAT_MAX_OPTIONS, tomcat_required_spec,
};
use crate::version_catalog::mysql::{load_spec, required_mysql_options_spec, mysql_option_spec};
use crate::version_catalog::nodejs::{
    parse_releases_spec, classic_lts_options_spec, sorted_releases, release_entries, ReleaseView,
};
use crate::version_catalog::jdk::{
    parse_releases_spec as jdk_catalog_spec, classic_jdk_options_spec, supported_entries,
    jdk_option_spec,
};
use crate::version_catalog::tomcat::{load_spec as tomcat_load_spec, fallback_spec};
use crate::version_catalog::listings::{Listing, fetched_entries};
use crate::types::VersionOption;

verus! {

proof fn lemma_sort_order_covers(keys: Seq<Seq<u32>>, n: nat)
    ensures
        forall|k: int| 0 <= k < n ==> #[trigger] sort_order(keys, n).contains(k),
    decreases n,
{
    if n > 0 {
        let x = n - 1;
        lemma_sort_order_covers(keys, x as nat);
        let o = sort_order(keys, x as nat);
        lemma_insert_pos_bounds(o, keys, x);
        let p = insert_pos(o, keys, x);
        let r = sort_order(keys, n);
        assert(r == o.insert(p, x));
        assert forall|k: int| 0 <= k < n implies #[trigger] r.contains(k) by {
            if k == x {
                assert(r[p] == k);
            } else {
                assert(o.contains(k));
                let i = choose|i: int| 0 <= i < o.len() && o[i] == k;
                if i < p {
                    assert(r[i] == k);
                } else {
                    assert(r[i + 1] == k);
                }
            }
        }
    }
}

/// Sorting a list only reorders it: the same entries and values, none lost or
/// added, and a list without repeated values stays without them.
pub proof fn lemma_sort_options(items: Seq<OptionView>)
    ensures
        sort_options_spec(items).len() == items.len(),
        forall|x: OptionView| #[trigger] sort_options_spec(items).contains(x) <==> items.contains(x),
        forall|v: Seq<char>| #[trigger] has_value(sort_options_spec(items), v) <==> has_value(items, v),
        distinct_values(items) ==> distinct_values(sort_options_spec(items)),
{
    let keys = option_keys(items);
    let n = items.len();
    lemma_sort_order(keys, n);
    lemma_sort_order_covers(keys, n);
    let order = sort_order(keys, n);
    let s = sort_options_spec(items);
    assert(s.len() == n);
    assert forall|i: int| 0 <= i < n implies #[trigger] s[i] == items[order[i]] by {}
    assert forall|x: OptionView| #[trigger] s.contains(x) <==> items.contains(x) by {
        if s.contains(x) {
            let i = choose|i: int| 0 <= i < s.len() && s[i] == x;
            assert(0 <= order[i] < n);
            assert(items[order[i]] == x);
        }
        if items.contains(x) {
            let k = choose|k: int| 0 <= k < items.len() && items[k] == x;
            assert(order.contains(k));
            let i = choose|i: int| 0 <= i < order.len() && order[i] == k;
            assert(s[i] == x);
        }
    }
    assert forall|v: Seq<char>| #[trigger] has_value(s, v) <==> has_value(items, v) by {
        if has_value(s, v) {
            let i = choose|i: int| 0 <= i < s.len() && #[trigger] s[i].value == v;
            assert(items[order[i]].value == v);
        }
        if has_value(items, v) {
            let k = choose|k: int| 0 <= k < items.len() && #[trigger] items[k].value == v;
            assert(order.contains(k));
            let i = choose|i: int| 0 <= i < order.len() && order[i] == k;
            assert(s[i].value == v);
        }
    }
    if distinct_values(items) {
        assert forall|i: int, j: int|
            0 <= i < s.len() && 0 <= j < s.len() && i != j implies #[trigger] s[i].value
                != #[trigger] s[j].value by {
            assert(order[i] != order[j]);
            assert(s[i] == items[order[i]] && s[j] == items[order[j]]);
        }
    }
}

/// No more versions are required-and-present than are required.
proof fn lemma_present_bound(items: Seq<OptionView>, req: Seq<Seq<char>>)
    ensures
        present_required(items, req).len() <= req.len(),
{
    broadcast use vstd::seq_lib::seq_to_set_is_finite;

    req.lemma_cardinality_of_set();
    vstd::set_lib::lemma_len_subset(present_required(items, req), req.to_set());
}

/// The last two steps of every catalog: cutting a list without repeated values
/// to `max` keeps the required values present, repeats nothing, and marking
/// marks exactly the entries of value `d`.
proof fn lemma_finish(items: Seq<OptionView>, max: nat, req: Seq<Seq<char>>, d: Seq<char>)
    requires
        distinct_values(items),
        req.len() <= max,
        max > 0,
    ensures
        ({
            let out = mark_default_spec(keep_values_spec(items, max, req), d);
            &&& forall|v: Seq<char>| req.contains(v) && has_value(items, v) ==> has_value(out, v)
            &&& distinct_values(out)
            &&& out.len() <= max
            &&& forall|i: int| 0 <= i < out.len() ==> (#[trigger] out[i]).default == (out[i].value == d)
        }),
{
    lemma_present_bound(items, req);
    lemma_keep_values(items, max, req);
    lemma_keep_values_keeps_required(items, max, req);
    let kept = keep_values_spec(items, max, req);
    lemma_mark_default(kept, d);
    let out = mark_default_spec(kept, d);
    assert forall|v: Seq<char>| req.contains(v) && has_value(items, v) implies has_value(out, v) by {
        assert(has_value(kept, v));
        let i = choose|i: int| 0 <= i < kept.len() && #[trigger] kept[i].value == v;
        assert(out[i].value == v);
    }
    assert forall|i: int, j: int|
        0 <= i < out.len() && 0 <= j < out.len() && i != j implies #[trigger] out[i].value
            != #[trigger] out[j].value by {
        assert(out[i].value == kept[i].value && out[j].value == kept[j].value);
    }
}

/// Every value of `vals` is the value of the matching entry of `entries`.
proof fn lemma_values_present(entries: Seq<OptionView>, vals: Seq<Seq<char>>)
    requires
        entries.len() == vals.len(),
        forall|i: int| 0 <= i < vals.len() ==> (#[trigger] entries[i]).value == vals[i],
    ensures
        forall|v: Seq<char>| vals.contains(v) ==> has_value(entries, v),
{
    assert forall|v: Seq<char>| vals.contains(v) implies has_value(entries, v) by {
        let i = choose|i: int| 0 <= i < vals.len() && vals[i] == v;
        assert(entries[i].value == v);
    }
}

/// Every MySQL catalog the loader gives offers 8.0.36, 5.7.44 and 5.7.38 whatever
/// versions the mirrors listed, repeats no version, shows at most 12, and marks
/// exactly 8.0.36 as the default.
pub proof fn lemma_mysql_catalog(fetched: Seq<Listing>)
    ensures
        forall|v: Seq<char>| mysql_required_spec().contains(v) ==> has_value(load_spec(fetched), v),
        distinct_values(load_spec(fetched)),
        load_spec(fetched).len() <= MYSQL_MAX_OPTIONS,
        forall|i: int|
            0 <= i < load_spec(fetched).len() ==> (#[trigger] load_spec(fetched)[i]).default == (
            load_spec(fetched)[i].value == DEFAULT_MYSQL@),
{
    let found = fetched_entries(fetched);
    let pinned = required_mysql_options_spec();
    lemma_values_present(pinned, mysql_required_spec());
    lemma_merge(found, pinned);
    let merged = merge_spec(found, pinned);
    lemma_dedup(merged);
    let all = dedup_spec(merged);
    lemma_sort_options(all);
    let sorted = sort_options_spec(all);
    assert forall|v: Seq<char>| mysql_required_spec().contains(v) implies has_value(sorted, v) by {
        assert(has_value(pinned, v));
        assert(has_value(merged, v));
    }
    lemma_finish(sorted, MYSQL_MAX_OPTIONS as nat, mysql_required_spec(), DEFAULT_MYSQL@);
}

/// The Node.js catalog of any release index offers the classic LTS releases,
/// repeats no version, shows at most 12, and marks exactly 20.19.0 as the default.
pub proof fn lemma_node_catalog(rs: Seq<ReleaseView>, source: Seq<char>)
    ensures
        forall|v: Seq<char>|
            node_required_spec().contains(v) ==> has_value(parse_releases_spec(rs, source), v),
        distinct_values(parse_releases_spec(rs, source)),
        parse_releases_spec(rs, source).len() <= NODE_MAX_OPTIONS,
        forall|i: int|
            0 <= i < parse_releases_spec(rs, source).len() ==> (#[trigger] parse_releases_spec(
                rs,
                source,
            )[i]).default == (parse_releases_spec(rs, source)[i].value == DEFAULT_NODEJS@),
{
    let sorted = sorted_releases(rs);
    let pinned = classic_lts_options_spec();
    assert forall|i: int| 0 <= i < node_required_spec().len() implies (#[trigger] pinned[i]).value
        == node_required_spec()[i] by {
        assert(pinned[i].value == node_classic_lts_spec()[i].0);
    }
    lemma_values_present(pinned, node_required_spec());
    let lts_found = release_entries(sorted, true, source);
    lemma_merge(lts_found, pinned);
    let merged = merge_spec(lts_found, pinned);
    lemma_dedup(merged);
    lemma_sort_options(dedup_spec(merged));
    let lts = sort_options_spec(dedup_spec(merged));
    let current = dedup_spec(release_entries(sorted, false, source));
    let both = lts + current;
    lemma_dedup(both);
    let all = dedup_spec(both);
    assert forall|v: Seq<char>| node_required_spec().contains(v) implies has_value(all, v) by {
        assert(has_value(pinned, v));
        assert(has_value(merged, v));
        assert(has_value(dedup_spec(merged), v));
        assert(has_value(lts, v));
        let i = choose|i: int| 0 <= i < lts.len() && #[trigger] lts[i].value == v;
        assert(both[i].value == v);
        assert(has_value(both, v));
    }
    lemma_finish(all, NODE_MAX_OPTIONS as nat, node_required_spec(), DEFAULT_NODEJS@);
}

proof fn lemma_decimal_nonempty(n: nat)
    ensures
        decimal(n).len() >= 1,
    decreases n,
{
    if n >= 10 {
        lemma_decimal_nonempty(n / 10);
    }
}

/// Different numbers have different decimal renderings.
pub proof fn lemma_decimal_injective(a: nat, b: nat)
    requires
        decimal(a) == decimal(b),
    ensures
        a == b,
    decreases a,
{
    if a < 10 && b < 10 {
        assert(decimal(a)[0] == digit_char(a as int));
        assert(decimal(b)[0] == digit_char(b as int));
    } else if a < 10 {
        lemma_decimal_nonempty(b / 10);
        assert(decimal(b).len() >= 2);
    } else if b < 10 {
        lemma_decimal_nonempty(a / 10);
        assert(decimal(a).len() >= 2);
    } else {
        let da = decimal(a);
        let db = decimal(b);
        assert(da.last() == digit_char((a % 10) as int));
        assert(db.last() == digit_char((b % 10) as int));
        assert(da.drop_last() =~= decimal(a / 10));
        assert(db.drop_last() =~= decimal(b / 10));
        lemma_decimal_injective(a / 10, b / 10);
        assert(a % 10 == b % 10);
    }
}

/// When Adoptium lists each major once, the JDK catalog offers the classic LTS
/// majors 8, 11, 17 and 21, repeats no version, shows at most 8, and marks
/// exactly 17 as the default. (The catalog does not remove repeats, so a major
/// listed many times can crowd classic majors out of the cut list.)
pub proof fn lemma_jdk_catalog(lts: Seq<u32>, available: Seq<u32>)
    requires
        available.no_duplicates(),
    ensures
        forall|v: Seq<char>|
            jdk_required_spec().contains(v) ==> has_value(jdk_catalog_spec(lts, available), v),
        distinct_values(jdk_catalog_spec(lts, available)),
        jdk_catalog_spec(lts, available).len() <= JDK_MAX_OPTIONS,
        forall|i: int|
            0 <= i < jdk_catalog_spec(lts, available).len() ==> (#[trigger] jdk_catalog_spec(
                lts,
                available,
            )[i]).default == (jdk_catalog_spec(lts, available)[i].value == DEFAULT_JDK@),
{
    let found = supported_entries(available, lts);
    lemma_supported_distinct(available, lts);
    lemma_sort_options(found);
    let pinned = classic_jdk_options_spec();
    reveal_strlit("8");
    reveal_strlit("11");
    reveal_strlit("17");
    reveal_strlit("21");
    assert(decimal(8) =~= "8"@);
    assert(decimal(1) =~= seq!['1']);
    assert(decimal(2) =~= seq!['2']);
    assert(decimal(11) =~= "11"@);
    assert(decimal(17) =~= "17"@);
    assert(decimal(21) =~= "21"@);
    assert forall|i: int| 0 <= i < jdk_required_spec().len() implies (#[trigger] pinned[i]).value
        == jdk_required_spec()[i] by {
        assert(pinned[i] == jdk_option_spec(jdk_classic_majors_spec()[i], true, "Classic JDK versions"@));
    }
    lemma_values_present(pinned, jdk_required_spec());
    let sorted = sort_options_spec(found);
    lemma_merge(sorted, pinned);
    let merged = merge_spec(sorted, pinned);
    lemma_sort_options(merged);
    let resorted = sort_options_spec(merged);
    assert forall|v: Seq<char>| jdk_required_spec().contains(v) implies has_value(resorted, v) by {
        assert(has_value(pinned, v));
        assert(has_value(merged, v));
    }
    lemma_finish(resorted, JDK_MAX_OPTIONS as nat, jdk_required_spec(), DEFAULT_JDK@);
}

/// The supported entries of majors listed once repeat no value; each is the
/// entry of a listed major.
proof fn lemma_supported_distinct(available: Seq<u32>, lts: Seq<u32>)
    requires
        available.no_duplicates(),
    ensures
        distinct_values(supported_entries(available, lts)),
        forall|i: int|
            0 <= i < supported_entries(available, lts).len() ==> exists|k: int|
                0 <= k < available.len() && (#[trigger] supported_entries(available, lts)[i]).value
                    == decimal(available[k] as nat),
    decreases available.len(),
{
    if available.len() > 0 {
        let front = available.drop_last();
        let m = available.last();
        assert(front.no_duplicates()) by {
            assert forall|i: int, j: int| 0 <= i < front.len() && 0 <= j < front.len() && i != j
                implies front[i] != front[j] by {
                assert(front[i] == available[i] && front[j] == available[j]);
            }
        }
        lemma_supported_distinct(front, lts);
        let prev = supported_entries(front, lts);
        let out = supported_entries(available, lts);
        assert forall|i: int| 0 <= i < out.len() implies exists|k: int|
            0 <= k < available.len() && (#[trigger] out[i]).value == decimal(available[k] as nat) by {
            if i < prev.len() {
                assert(out[i] == prev[i]);
                let k = choose|k: int| 0 <= k < front.len() && prev[i].value == decimal(front[k] as nat);
                assert(available[k] == front[k]);
            } else {
                assert(out[i].value == decimal(m as nat));
                assert(available[available.len() - 1] == m);
            }
        }
        if out.len() > prev.len() {
            assert forall|i: int, j: int|
                0 <= i < out.len() && 0 <= j < out.len() && i != j implies #[trigger] out[i].value
                    != #[trigger] out[j].value by {
                if i < prev.len() && j < prev.len() {
                    assert(out[i] == prev[i] && out[j] == prev[j]);
                } else {
                    let (a, b) = if i < prev.len() { (i, j) } else { (j, i) };
                    assert(out[a] == prev[a]);
                    let k = choose|k: int| 0 <= k < front.len() && prev[a].value == decimal(front[k] as nat);
                    assert(out[b].value == decimal(m as nat));
                    if decimal(front[k] as nat) == decimal(m as nat) {
                        lemma_decimal_injective(front[k] as nat, m as nat);
                        assert(available[k] == available[available.len() - 1]);
                    }
                }
            }
        }
    }
}

/// Every Tomcat catalog the loader gives offers the default 8.5.100, repeats no
/// version, shows at most 12, and marks exactly the default.
pub proof fn lemma_tomcat_catalog(fetched: Seq<Listing>)
    ensures
        has_value(tomcat_load_spec(fetched), DEFAULT_TOMCAT@),
        distinct_values(tomcat_load_spec(fetched)),
        tomcat_load_spec(fetched).len() <= TOMCAT_MAX_OPTIONS,
        forall|i: int|
            0 <= i < tomcat_load_spec(fetched).len() ==> (#[trigger] tomcat_load_spec(
                fetched,
            )[i]).default == (tomcat_load_spec(fetched)[i].value == DEFAULT_TOMCAT@),
{
    let fb = fallback_spec();
    reveal_strlit("11.0.6");
    reveal_strlit("10.1.39");
    reveal_strlit("9.0.102");
    reveal_strlit("8.5.100");
    reveal_strlit("7.0.109");
    assert(fb[3].value == DEFAULT_TOMCAT@);
    assert(has_value(fb, DEFAULT_TOMCAT@));
    assert(distinct_values(fb)) by {
        assert forall|i: int, j: int| 0 <= i < fb.len() && 0 <= j < fb.len() && i != j implies #[trigger] fb[i].value
            != #[trigger] fb[j].value by {
            assert(fb[0].value[0] == '1' && fb[0].value[1] == '1');
            assert(fb[1].value[0] == '1' && fb[1].value[1] == '0');
            assert(fb[2].value[0] == '9');
            assert(fb[3].value[0] == '8');
            assert(fb[4].value[0] == '7');
        }
    }
    let found = fetched_entries(fetched);
    lemma_sort_options(found);
    lemma_dedup(sort_options_spec(found));
    let unique = dedup_spec(sort_options_spec(found));
    lemma_merge(unique, fb);
    let merged = merge_spec(unique, fb);
    lemma_sort_options(merged);
    let sorted = sort_options_spec(merged);
    assert(tomcat_required_spec() =~= seq![DEFAULT_TOMCAT@]);
    assert forall|v: Seq<char>| tomcat_required_spec().contains(v) implies has_value(sorted, v) by {
        assert(v == DEFAULT_TOMCAT@);
        assert(has_value(merged, v));
    }
    lemma_finish(sorted, TOMCAT_MAX_OPTIONS as nat, tomcat_required_spec(), DEFAULT_TOMCAT@);
    assert(tomcat_required_spec().contains(DEFAULT_TOMCAT@)) by {
        assert(tomcat_required_spec()[0] == DEFAULT_TOMCAT@);
    }
}

} // verus!
