//! JDK versions from the Adoptium release API, with the classic LTS majors
//! always offered.

use vstd::prelude::*;
use crate::text::{owned, u32_to_text, decimal, str_eq};
use crate::types::{VersionOption, OptionView, option_views};
use crate::version_policy::{
    DEFAULT_JDK, JDK_MAX_OPTIONS, jdk_classic_majors, jdk_classic_majors_spec, jdk_required_values,
    jdk_required_spec, is_supported_major, supported_jdk_major, is_classic_lts, classic_jdk_lts,
    jdk_label, jdk_label_spec,
};
use crate::version_catalog::options::{
    option, mark_default, merge_options, limit_keep_values, mark_default_spec, merge_spec,
    keep_values_spec,
};
use crate::version_catalog::sort::{sort_options, sort_options_spec};

verus! {

/// Where the JDK release list is read from.
pub const ADOPTIUM_RELEASES_URL: &'static str = "https://api.adoptium.net/v3/info/available_releases";

/// The part of Adoptium's `available_releases` answer that the catalog reads.
pub struct AdoptiumReleases {
    pub available_lts_releases: Vec<u32>,
    pub available_releases: Vec<u32>,
}

/// The catalog entry of JDK `major`.
pub open spec fn jdk_option_spec(major: u32, lts: bool, source: Seq<char>) -> OptionView {
    OptionView {
        value: decimal(major as nat),
        label: jdk_label_spec(major, lts),
        default: decimal(major as nat) == DEFAULT_JDK@,
        lts,
        source,
    }
}

/// The entries of the supported majors among `majors`, in order; a major is LTS
/// when Adoptium lists it as LTS or it is a classic LTS major.
pub open spec fn supported_entries(majors: Seq<u32>, lts: Seq<u32>) -> Seq<OptionView>
    decreases majors.len(),
{
    if majors.len() == 0 {
        Seq::<OptionView>::empty()
    } else {
        let prev = supported_entries(majors.drop_last(), lts);
        let m = majors.last();
        if supported_jdk_major(m) {
            prev.push(jdk_option_spec(m, lts.contains(m) || classic_jdk_lts(m), "Adoptium API"@))
        } else {
            prev
        }
    }
}

/// The classic LTS majors as entries.
pub open spec fn classic_jdk_options_spec() -> Seq<OptionView> {
    jdk_classic_majors_spec().map_values(
        |m: u32| jdk_option_spec(m, true, "Classic JDK versions"@),
    )
}

/// The JDK catalog: the supported majors newest first, the classic LTS majors
/// merged in, cut to the display limit with the required majors kept, and
/// only the default marked as such.
pub open spec fn parse_releases_spec(lts: Seq<u32>, available: Seq<u32>) -> Seq<OptionView> {
    let merged = merge_spec(
        sort_options_spec(supported_entries(available, lts)),
        classic_jdk_options_spec(),
    );
    mark_default_spec(
        keep_values_spec(sort_options_spec(merged), JDK_MAX_OPTIONS as nat, jdk_required_spec()),
        DEFAULT_JDK@,
    )
}

fn u32_in(v: &Vec<u32>, x: u32) -> (r: bool)
    ensures
        r == v@.contains(x),
{
    let mut i: usize = 0;
    while i < v.len()
        invariant
            0 <= i <= v@.len(),
            forall|j: int| 0 <= j < i ==> v@[j] != x,
        decreases v@.len() - i,
    {
        if v[i] == x {
            assert(v@[i as int] == x);
            return true;
        }
        i += 1;
    }
    false
}

fn jdk_option(major: u32, lts: bool, source: &str) -> (r: VersionOption)
    ensures
        r@ == jdk_option_spec(major, lts, source@),
{
    let value = u32_to_text(major);
    let is_default = str_eq(value.as_str(), DEFAULT_JDK);
    option(value.as_str(), jdk_label(major, lts), is_default, lts, source)
}

/// The classic LTS majors as entries.
pub fn classic_jdk_options() -> (r: Vec<VersionOption>)
    ensures
        option_views(r@) == classic_jdk_options_spec(),
{
    let majors = jdk_classic_majors();
    let mut r: Vec<VersionOption> = Vec::new();
    let mut i: usize = 0;
    while i < majors.len()
        invariant
            majors@ == jdk_classic_majors_spec(),
            0 <= i <= majors@.len(),
            option_views(r@) == classic_jdk_options_spec().take(i as int),
        decreases majors@.len() - i,
    {
        let o = jdk_option(majors[i], true, "Classic JDK versions");
        let ghost before = r@;
        r.push(o);
        proof {
            assert(classic_jdk_options_spec()[i as int] == jdk_option_spec(majors@[i as int], true, "Classic JDK versions"@));
            assert(option_views(r@) =~= option_views(before).push(o@));
            assert(option_views(r@) =~= classic_jdk_options_spec().take(i + 1));
        }
        i += 1;
    }
    proof {
        assert(classic_jdk_options_spec().take(majors@.len() as int) =~= classic_jdk_options_spec());
    }
    r
}

/// Builds the JDK catalog from Adoptium's release lists.
pub fn parse_releases(data: AdoptiumReleases) -> (r: Vec<VersionOption>)
    ensures
        option_views(r@) == parse_releases_spec(
            data.available_lts_releases@,
            data.available_releases@,
        ),
{
    let lts = &data.available_lts_releases;
    let majors = &data.available_releases;
    let mut items: Vec<VersionOption> = Vec::new();
    let mut i: usize = 0;
    while i < majors.len()
        invariant
            0 <= i <= majors@.len(),
            option_views(items@) == supported_entries(majors@.take(i as int), lts@),
        decreases majors@.len() - i,
    {
        proof {
            assert(majors@.take(i + 1).drop_last() =~= majors@.take(i as int));
            assert(majors@.take(i + 1).last() == majors@[i as int]);
        }
        let m = majors[i];
        if is_supported_major(m) {
            let is_lts = u32_in(lts, m) || is_classic_lts(m);
            let o = jdk_option(m, is_lts, "Adoptium API");
            let ghost before = items@;
            items.push(o);
            proof {
                assert(option_views(items@) =~= option_views(before).push(o@));
            }
        }
        i += 1;
    }
    proof {
        assert(majors@.take(majors@.len() as int) =~= majors@);
    }
    let sorted = sort_options(&items);
    let merged = merge_options(sorted, classic_jdk_options());
    let resorted = sort_options(&merged);
    let required = jdk_required_values();
    let limited = limit_keep_values(resorted, JDK_MAX_OPTIONS, required.as_slice());
    mark_default(limited, DEFAULT_JDK)
}

/// The JDK catalog of Adoptium's release lists, or the error when it holds no
/// version.
pub fn load_from_releases(data: AdoptiumReleases) -> (r: Result<Vec<VersionOption>, String>)
    ensures
        ({
            let spec = parse_releases_spec(data.available_lts_releases@, data.available_releases@);
            &&& spec.len() > 0 ==> (r matches Ok(items) && option_views(items@) == spec)
            &&& spec.len() == 0 ==> (r matches Err(e) && e@ == "实时获取 JDK 版本失败: 未解析到可用版本"@)
        }),
{
    let items = parse_releases(data);
    if items.len() == 0 {
        Err(owned("实时获取 JDK 版本失败: 未解析到可用版本"))
    } else {
        Ok(items)
    }
}

} // verus!
