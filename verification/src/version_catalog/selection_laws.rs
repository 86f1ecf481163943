//! Which versions a catalog chooses: the Maven catalog holds the newest stable
//! releases, newest first, and the JDK catalog marks every major that Adoptium
//! lists as LTS as such.

use vstd::prelude::*;
use crate::text::decimal;
use crate::types::OptionView;
use crate::version_policy::{DEFAULT_MAVEN, jdk_label_spec, classic_jdk_lts, supported_jdk_major};
use crate::version_catalog::semver::semver_sign;
use crate::version_catalog::options::{
    has_value, first_with_value, keep_default_spec, mark_default_spec, merge_spec,
    keep_values_spec,
};
use crate::version_catalog::laws::{
    lemma_first_with_value, lemma_keep_default, lemma_mark_default, lemma_merge, lemma_keep_values,
};
use crate::version_catalog::sort::{
    sort_order, sort_options_spec, option_keys, lemma_sort_order, newest_first,
};
use crate::version_catalog::catalog_laws::{lemma_sort_options, lemma_decimal_injective};
use crate::version_catalog::maven::{
    MAVEN_MAX_OPTIONS, maven_catalog_spec, stable_entries, maven_entry, stable_maven3,
};
use crate::version_catalog::jdk::{
    parse_releases_spec as jdk_catalog_spec, supported_entries, classic_jdk_options_spec,
    jdk_option_spec,
};
use crate::version_policy::{JDK_MAX_OPTIONS, jdk_required_spec, DEFAULT_JDK, jdk_classic_majors_spec};

verus! {

/// A sorted list is newest first: no entry is older than one after it.
proof fn lemma_sorted_newest_first(items: Seq<OptionView>)
    ensures
        forall|i: int, j: int|
            0 <= i < j < sort_options_spec(items).len() ==> semver_sign(
                #[trigger] sort_options_spec(items)[i].value,
                #[trigger] sort_options_spec(items)[j].value,
            ) <= 0,
{
    let keys = option_keys(items);
    let n = items.len();
    lemma_sort_order(keys, n);
    let order = sort_order(keys, n);
    let s = sort_options_spec(items);
    assert forall|i: int, j: int| 0 <= i < j < s.len() implies semver_sign(
        #[trigger] s[i].value,
        #[trigger] s[j].value,
    ) <= 0 by {
        assert(s[i] == items[order[i]]);
        assert(s[j] == items[order[j]]);
        assert(keys[order[i]] == crate::version_catalog::semver::semver_parts(items[order[i]].value));
        assert(keys[order[j]] == crate::version_catalog::semver::semver_parts(items[order[j]].value));
        assert(newest_first(keys, order));
    }
}

/// The stable entries of a metadata list are exactly the entries of its stable
/// 3.x versions.
proof fn lemma_stable_entries(vs: Seq<Seq<char>>)
    ensures
        forall|k: int|
            0 <= k < vs.len() && stable_maven3(vs[k]) ==> #[trigger] stable_entries(vs).contains(
                maven_entry(vs[k]),
            ),
        forall|x: OptionView|
            #[trigger] stable_entries(vs).contains(x) ==> exists|k: int|
                0 <= k < vs.len() && stable_maven3(vs[k]) && x == maven_entry(vs[k]),
    decreases vs.len(),
{
    if vs.len() > 0 {
        let front = vs.drop_last();
        lemma_stable_entries(front);
        let prev = stable_entries(front);
        let out = stable_entries(vs);
        assert forall|x: OptionView| prev.contains(x) implies out.contains(x) by {
            let i = choose|i: int| 0 <= i < prev.len() && prev[i] == x;
            assert(out[i] == x);
        }
        assert forall|k: int|
            0 <= k < vs.len() && stable_maven3(vs[k]) implies #[trigger] out.contains(maven_entry(vs[k])) by {
            if k < vs.len() - 1 {
                assert(front[k] == vs[k]);
            } else {
                assert(out[out.len() - 1] == maven_entry(vs.last()));
            }
        }
        assert forall|x: OptionView| #[trigger] out.contains(x) implies exists|k: int|
            0 <= k < vs.len() && stable_maven3(vs[k]) && x == maven_entry(vs[k]) by {
            if prev.contains(x) {
                let k = choose|k: int| 0 <= k < front.len() && stable_maven3(front[k]) && x == maven_entry(front[k]);
                assert(vs[k] == front[k]);
            } else {
                let i = choose|i: int| 0 <= i < out.len() && out[i] == x;
                if i < prev.len() {
                    assert(prev[i] == x);
                }
                assert(x == maven_entry(vs[vs.len() - 1]));
            }
        }
    }
}

/// The Maven catalog holds the newest stable 3.x releases of the metadata,
/// newest first: it lists as many as the metadata has, up to 16; each is a
/// stable release the metadata lists; no entry is older than one after it;
/// every stable release it leaves out, other than the default, is no newer
/// than any entry it keeps other than the default; the default 3.9.6 stays when
/// the metadata lists it; and each entry is labelled "Maven <version>", marked
/// default exactly when it is 3.9.6, and not LTS.
pub proof fn lemma_maven_catalog_newest(vs: Seq<Seq<char>>)
    ensures
        ({
            let r = maven_catalog_spec(vs);
            let n = stable_entries(vs).len();
            &&& r.len() == (if n <= MAVEN_MAX_OPTIONS { n } else { MAVEN_MAX_OPTIONS as nat })
            &&& forall|i: int|
                0 <= i < r.len() ==> exists|k: int|
                    0 <= k < vs.len() && stable_maven3(vs[k]) && (#[trigger] r[i]).value == vs[k]
            &&& forall|i: int, j: int|
                0 <= i < j < r.len() ==> semver_sign(#[trigger] r[i].value, #[trigger] r[j].value) <= 0
            &&& forall|k: int, i: int|
                0 <= k < vs.len() && stable_maven3(#[trigger] vs[k]) && vs[k] != DEFAULT_MAVEN@
                    && !has_value(r, vs[k]) && 0 <= i < r.len() && (#[trigger] r[i]).value
                    != DEFAULT_MAVEN@ ==> semver_sign(r[i].value, vs[k]) <= 0
            &&& forall|k: int|
                0 <= k < vs.len() && stable_maven3(#[trigger] vs[k]) && vs[k] == DEFAULT_MAVEN@
                    ==> has_value(r, DEFAULT_MAVEN@)
            &&& forall|i: int|
                0 <= i < r.len() ==> {
                    &&& (#[trigger] r[i]).label == "Maven "@ + r[i].value
                    &&& r[i].default == (r[i].value == DEFAULT_MAVEN@)
                    &&& !r[i].lts
                }
        }),
{
    let d = DEFAULT_MAVEN@;
    let max = MAVEN_MAX_OPTIONS as nat;
    let e = stable_entries(vs);
    lemma_stable_entries(vs);
    lemma_sort_options(e);
    lemma_sorted_newest_first(e);
    let sorted = sort_options_spec(e);
    lemma_keep_default(sorted, max, d);
    let kept = keep_default_spec(sorted, max, d);
    lemma_mark_default(kept, d);
    let r = mark_default_spec(kept, d);
    let t = sorted.take(max as int);
    lemma_first_with_value(sorted, d);
    // Where each kept entry stands in the sorted list: entries other than a
    // moved-in default keep their place.
    let replaced = sorted.len() > max && !has_value(t, d) && first_with_value(sorted, d) is Some;
    assert(sorted.len() > max && !replaced ==> kept == t);
    assert(sorted.len() <= max ==> kept == sorted);
    assert forall|i: int| 0 <= i < kept.len() && !(replaced && i == max - 1) implies #[trigger] kept[i]
        == sorted[i] by {
        if replaced {
            assert(kept == t.drop_last().push(first_with_value(sorted, d)->Some_0));
        }
    }
    if replaced {
        let x = first_with_value(sorted, d)->Some_0;
        assert(kept == t.drop_last().push(x));
        assert(kept[max - 1] == x);
        assert(x.value == d);
    }
    // The default stays, and every entry reads as a Maven entry.
    assert forall|k: int|
        0 <= k < vs.len() && stable_maven3(#[trigger] vs[k]) && vs[k] == d implies has_value(r, d) by {
        assert(e.contains(maven_entry(vs[k])));
        assert(sorted.contains(maven_entry(vs[k])));
        let p = choose|p: int| 0 <= p < sorted.len() && sorted[p] == maven_entry(vs[k]);
        assert(sorted[p].value == d);
        assert(has_value(sorted, d));
        assert(has_value(kept, d));
        let i = choose|i: int| 0 <= i < kept.len() && #[trigger] kept[i].value == d;
        assert(r[i].value == d);
    }
    assert forall|i: int| 0 <= i < r.len() implies {
        &&& (#[trigger] r[i]).label == "Maven "@ + r[i].value
        &&& r[i].default == (r[i].value == d)
        &&& !r[i].lts
    } by {
        assert(kept.contains(kept[i]));
        assert(sorted.contains(kept[i]));
        assert(e.contains(kept[i]));
        let k = choose|k: int| 0 <= k < vs.len() && stable_maven3(vs[k]) && kept[i] == maven_entry(vs[k]);
        assert(r[i].value == kept[i].value && r[i].label == kept[i].label && r[i].lts == kept[i].lts);
    }
    // What the catalog holds comes from the stable releases.
    assert forall|i: int| 0 <= i < r.len() implies exists|k: int|
        0 <= k < vs.len() && stable_maven3(vs[k]) && (#[trigger] r[i]).value == vs[k] by {
        assert(kept.contains(kept[i]));
        assert(sorted.contains(kept[i]));
        assert(e.contains(kept[i]));
        let k = choose|k: int| 0 <= k < vs.len() && stable_maven3(vs[k]) && kept[i] == maven_entry(vs[k]);
        assert(r[i].value == kept[i].value);
    }
    // Newest first.
    assert forall|i: int, j: int| 0 <= i < j < r.len() implies semver_sign(
        #[trigger] r[i].value,
        #[trigger] r[j].value,
    ) <= 0 by {
        assert(r[i].value == kept[i].value && r[j].value == kept[j].value);
        assert(kept[i] == sorted[i]);
        if replaced && j == max - 1 {
            let x = first_with_value(sorted, d)->Some_0;
            let q = choose|q: int| 0 <= q < sorted.len() && sorted[q] == x;
            if q < max {
                assert(t[q].value == d);
            }
            assert(semver_sign(sorted[i].value, sorted[q].value) <= 0);
        } else {
            assert(kept[j] == sorted[j]);
        }
    }
    // What is left out is no newer than what is kept.
    assert forall|k: int, i: int|
        0 <= k < vs.len() && stable_maven3(#[trigger] vs[k]) && vs[k] != d && !has_value(r, vs[k])
            && 0 <= i < r.len() && (#[trigger] r[i]).value != d implies semver_sign(r[i].value, vs[k])
        <= 0 by {
        let v = vs[k];
        assert(e.contains(maven_entry(v)));
        assert(sorted.contains(maven_entry(v)));
        let p = choose|p: int| 0 <= p < sorted.len() && sorted[p] == maven_entry(v);
        assert(sorted[p].value == v);
        assert(r[i].value == kept[i].value);
        if replaced {
            assert(i != max - 1);
        }
        assert(kept[i] == sorted[i]);
        if p < kept.len() && !(replaced && p == max - 1) {
            assert(kept[p] == sorted[p]);
            assert(r[p].value == v);
        }
        assert(i < p);
    }
}

/// The supported entries of Adoptium's majors: each is the entry of a listed
/// supported major, LTS when Adoptium lists it as LTS or it is a classic LTS major.
proof fn lemma_supported_members(majors: Seq<u32>, lts: Seq<u32>)
    ensures
        forall|x: OptionView|
            #[trigger] supported_entries(majors, lts).contains(x) ==> exists|m: u32|
                majors.contains(m) && supported_jdk_major(m) && x == jdk_option_spec(
                    m,
                    lts.contains(m) || classic_jdk_lts(m),
                    "Adoptium API"@,
                ),
    decreases majors.len(),
{
    if majors.len() > 0 {
        let front = majors.drop_last();
        lemma_supported_members(front, lts);
        let prev = supported_entries(front, lts);
        let out = supported_entries(majors, lts);
        assert forall|x: OptionView| #[trigger] out.contains(x) implies exists|m: u32|
            majors.contains(m) && supported_jdk_major(m) && x == jdk_option_spec(
                m,
                lts.contains(m) || classic_jdk_lts(m),
                "Adoptium API"@,
            ) by {
            let i = choose|i: int| 0 <= i < out.len() && out[i] == x;
            if i < prev.len() {
                assert(prev[i] == x);
                assert(prev.contains(x));
                let m = choose|m: u32| front.contains(m) && supported_jdk_major(m) && x == jdk_option_spec(
                    m,
                    lts.contains(m) || classic_jdk_lts(m),
                    "Adoptium API"@,
                );
                let j = choose|j: int| 0 <= j < front.len() && front[j] == m;
                assert(majors[j] == m);
            } else {
                let m = majors.last();
                assert(majors[majors.len() - 1] == m);
            }
        }
    }
}

/// Every JDK catalog entry of a major that Adoptium lists as LTS is marked LTS
/// and labelled "JDK <major> (LTS)"; more generally each entry is the entry of a
/// major, marked LTS exactly when Adoptium lists that major as LTS or it is one
/// of the classic LTS majors 8, 11, 17 and 21, and labelled accordingly.
pub proof fn lemma_jdk_lts_marked(lts: Seq<u32>, available: Seq<u32>)
    ensures
        forall|i: int, m: u32|
            #![trigger jdk_catalog_spec(lts, available)[i], lts.contains(m)]
            0 <= i < jdk_catalog_spec(lts, available).len() && lts.contains(m)
                && jdk_catalog_spec(lts, available)[i].value == decimal(m as nat) ==> {
                let o = jdk_catalog_spec(lts, available)[i];
                &&& o.lts
                &&& o.label == "JDK "@ + o.value + " (LTS)"@
            },
        forall|i: int|
            #![trigger jdk_catalog_spec(lts, available)[i]]
            0 <= i < jdk_catalog_spec(lts, available).len() ==> exists|m: u32| {
                let o = jdk_catalog_spec(lts, available)[i];
                &&& o.value == #[trigger] decimal(m as nat)
                &&& o.lts == (lts.contains(m) || classic_jdk_lts(m))
                &&& o.label == jdk_label_spec(m, o.lts)
            },
{
    let found = supported_entries(available, lts);
    lemma_supported_members(available, lts);
    lemma_sort_options(found);
    let sorted = sort_options_spec(found);
    let pinned = classic_jdk_options_spec();
    lemma_merge(sorted, pinned);
    let merged = merge_spec(sorted, pinned);
    lemma_sort_options(merged);
    let resorted = sort_options_spec(merged);
    lemma_keep_values(resorted, JDK_MAX_OPTIONS as nat, jdk_required_spec());
    let kept = keep_values_spec(resorted, JDK_MAX_OPTIONS as nat, jdk_required_spec());
    lemma_mark_default(kept, DEFAULT_JDK@);
    let r = jdk_catalog_spec(lts, available);
    assert(r == mark_default_spec(kept, DEFAULT_JDK@));
    assert forall|i: int, m: u32|
        #![trigger r[i], lts.contains(m)]
        0 <= i < r.len() && lts.contains(m) && r[i].value == decimal(m as nat) implies {
            &&& r[i].lts
            &&& r[i].label == "JDK "@ + r[i].value + " (LTS)"@
        } by {
        let x = kept[i];
        assert(kept.contains(x));
        assert(resorted.contains(x));
        assert(merged.contains(x));
        if sorted.contains(x) {
            assert(found.contains(x));
            let m2 = choose|m2: u32| available.contains(m2) && supported_jdk_major(m2) && x == jdk_option_spec(
                m2,
                lts.contains(m2) || classic_jdk_lts(m2),
                "Adoptium API"@,
            );
            lemma_decimal_injective(m2 as nat, m as nat);
            assert(m2 == m);
            assert(x.lts);
            assert(x.label == jdk_label_spec(m, true));
        } else {
            assert(pinned.contains(x));
            let j = choose|j: int| 0 <= j < pinned.len() && pinned[j] == x;
            let cm = jdk_classic_majors_spec()[j];
            assert(x == jdk_option_spec(cm, true, "Classic JDK versions"@));
            assert(x.label == jdk_label_spec(cm, true));
        }
        assert(r[i].lts == x.lts && r[i].label == x.label && r[i].value == x.value);
    }
    assert forall|i: int| #![trigger r[i]] 0 <= i < r.len() implies exists|m: u32| {
        let o = r[i];
        &&& o.value == #[trigger] decimal(m as nat)
        &&& o.lts == (lts.contains(m) || classic_jdk_lts(m))
        &&& o.label == jdk_label_spec(m, o.lts)
    } by {
        let x = kept[i];
        assert(kept.contains(x));
        assert(resorted.contains(x));
        assert(merged.contains(x));
        assert(r[i].lts == x.lts && r[i].label == x.label && r[i].value == x.value);
        if sorted.contains(x) {
            assert(found.contains(x));
            let m2 = choose|m2: u32| available.contains(m2) && supported_jdk_major(m2) && x == jdk_option_spec(
                m2,
                lts.contains(m2) || classic_jdk_lts(m2),
                "Adoptium API"@,
            );
            assert(r[i].value == decimal(m2 as nat));
        } else {
            assert(pinned.contains(x));
            let j = choose|j: int| 0 <= j < pinned.len() && pinned[j] == x;
            let cm = jdk_classic_majors_spec()[j];
            assert(x == jdk_option_spec(cm, true, "Classic JDK versions"@));
            assert(jdk_classic_majors_spec().contains(cm));
            assert(r[i].value == decimal(cm as nat));
        }
    }
}

} // verus!
