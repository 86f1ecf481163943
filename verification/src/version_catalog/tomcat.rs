//! Tomcat versions from the Apache archive directories of each supported major
//! line, with built-in versions when no directory could be read.

use vstd::prelude::*;
use crate::text::{
    chars_of, owned, concat3, str_eq, contains_char, starts_with_chars, starts_with_text,
    u32_to_text, decimal,
};
use crate::types::{VersionOption, OptionView, option_views};
use crate::version_policy::{
    DEFAULT_TOMCAT, TOMCAT_MAX_OPTIONS, tomcat_label, tomcat_label_spec, tomcat_required_values,
    tomcat_required_spec,
};
use crate::version_catalog::semver::{dotted_numeric, is_dotted_numeric};
use crate::version_catalog::pattern::{capture_group1, captured_texts, string_views};
use crate::version_catalog::options::{
    option, mark_default, merge_options, dedup_by_value, limit_keep_values, mark_default_spec,
    merge_spec, dedup_spec, keep_values_spec,
};
use crate::version_catalog::sort::{sort_options, sort_options_spec};
use crate::version_catalog::listings::{Listing, fetched_entries, listing_notes, gather, failure_message};
use crate::text::join_with;

verus! {

/// The archive directory of Tomcat major line `major`.
pub open spec fn archive_url_spec(major: u32) -> Seq<char> {
    "https://archive.apache.org/dist/tomcat/tomcat-"@ + decimal(major as nat) + "/"@
}

/// The archive directory of Tomcat major line `major`.
pub fn tomcat_archive_url(major: u32) -> (r: String)
    ensures
        r@ == archive_url_spec(major),
{
    let m = u32_to_text(major);
    concat3("https://archive.apache.org/dist/tomcat/tomcat-", m.as_str(), "/")
}

/// The pattern whose group 1 is a version linked from the directory of `major`.
pub open spec fn listing_pattern_spec(major: u32) -> Seq<char> {
    "href=\"v("@ + decimal(major as nat) + "\\.\\d+\\.\\d+)/\""@
}

fn listing_pattern(major: u32) -> (r: String)
    ensures
        r@ == listing_pattern_spec(major),
{
    let m = u32_to_text(major);
    concat3("href=\"v(", m.as_str(), "\\.\\d+\\.\\d+)/\"")
}

/// A stable version: no `-` suffix and every dotted part a number.
pub open spec fn stable(v: Seq<char>) -> bool {
    !v.contains('-') && dotted_numeric(v)
}

/// Whether `version` is a stable release.
pub fn is_stable(version: &str) -> (r: bool)
    ensures
        r == stable(version@),
{
    let cs = chars_of(version);
    !contains_char(cs.as_slice(), '-') && is_dotted_numeric(cs.as_slice())
}

/// Whether a version found in the directory of `major` is offered: it is stable,
/// and of line 8 only the 8.5 releases are.
pub open spec fn offered(v: Seq<char>, major: u32) -> bool {
    stable(v) && (major != 8 || starts_with_text(v, "8.5."@))
}

/// The catalog entry of Tomcat version `v` from the archive.
pub open spec fn archive_entry(v: Seq<char>) -> OptionView {
    OptionView {
        value: v,
        label: tomcat_label_spec(v),
        default: v == DEFAULT_TOMCAT@,
        lts: false,
        source: "Apache Archive"@,
    }
}

/// The entries of the offered versions among `vs`, in order.
pub open spec fn offered_entries(vs: Seq<Seq<char>>, major: u32) -> Seq<OptionView>
    decreases vs.len(),
{
    if vs.len() == 0 {
        Seq::<OptionView>::empty()
    } else {
        let prev = offered_entries(vs.drop_last(), major);
        if offered(vs.last(), major) {
            prev.push(archive_entry(vs.last()))
        } else {
            prev
        }
    }
}

/// The versions of the archive directory of `major`, in the order linked.
pub open spec fn parse_listing_spec(html: Seq<char>, major: u32) -> Seq<OptionView> {
    offered_entries(captured_texts(listing_pattern_spec(major), html), major)
}

/// Reads the versions linked from the archive directory page of `major`.
pub fn parse_directory_listing(html: &str, major: u32) -> (r: Vec<VersionOption>)
    ensures
        option_views(r@) == parse_listing_spec(html@, major),
{
    let pattern = listing_pattern(major);
    let versions = capture_group1(pattern.as_str(), html);
    tomcat_options_from(&versions, major)
}

/// The entries of the versions linked from the directory of `major`, in order.
pub fn tomcat_options_from(versions: &Vec<String>, major: u32) -> (r: Vec<VersionOption>)
    ensures
        option_views(r@) == offered_entries(string_views(versions@), major),
{
    let ghost vs = string_views(versions@);
    let mut items: Vec<VersionOption> = Vec::new();
    let eight_five = chars_of("8.5.");
    let mut i: usize = 0;
    while i < versions.len()
        invariant
            0 <= i <= versions@.len(),
            vs == string_views(versions@),
            eight_five@ == "8.5."@,
            option_views(items@) == offered_entries(vs.take(i as int), major),
        decreases versions@.len() - i,
    {
        proof {
            assert(vs.take(i + 1).drop_last() =~= vs.take(i as int));
            assert(vs.take(i + 1).last() == versions@[i as int]@);
        }
        let v = versions[i].as_str();
        let cs = chars_of(v);
        if is_stable(v) && (major != 8 || starts_with_chars(cs.as_slice(), eight_five.as_slice())) {
            let is_default = str_eq(v, DEFAULT_TOMCAT);
            let o = option(v, tomcat_label(v), is_default, false, "Apache Archive");
            let ghost before = items@;
            items.push(o);
            proof {
                assert(option_views(items@) =~= option_views(before).push(archive_entry(v@)));
            }
        }
        i += 1;
    }
    proof {
        assert(vs.take(versions@.len() as int) =~= vs);
    }
    items
}

/// The built-in versions merged into what the archive directories list.
pub open spec fn fallback_spec() -> Seq<OptionView> {
    seq![
        ("11.0.6"@, "Tomcat 11.0.6"@),
        ("10.1.39"@, "Tomcat 10.1.39 (LTS)"@),
        ("9.0.102"@, "Tomcat 9.0.102 (LTS)"@),
        (DEFAULT_TOMCAT@, "Tomcat "@ + DEFAULT_TOMCAT@ + " (LTS)"@),
        ("7.0.109"@, "Tomcat 7.0.109 (EOL)"@),
    ].map_values(
        |p: (Seq<char>, Seq<char>)|
            OptionView {
                value: p.0,
                label: p.1,
                default: p.0 == DEFAULT_TOMCAT@,
                lts: false,
                source: "内置版本"@,
            },
    )
}

fn fallback_option(value: &str, label: String) -> (r: VersionOption)
    ensures
        r@ == (OptionView {
            value: value@,
            label: label@,
            default: value@ == DEFAULT_TOMCAT@,
            lts: false,
            source: "内置版本"@,
        }),
{
    let is_default = str_eq(value, DEFAULT_TOMCAT);
    option(value, label, is_default, false, "内置版本")
}

/// The built-in versions merged into what the archive directories list.
pub fn fallback_versions() -> (r: Vec<VersionOption>)
    ensures
        option_views(r@) == fallback_spec(),
{
    let mut r: Vec<VersionOption> = Vec::new();
    r.push(fallback_option("11.0.6", owned("Tomcat 11.0.6")));
    r.push(fallback_option("10.1.39", owned("Tomcat 10.1.39 (LTS)")));
    r.push(fallback_option("9.0.102", owned("Tomcat 9.0.102 (LTS)")));
    r.push(fallback_option(DEFAULT_TOMCAT, concat3("Tomcat ", DEFAULT_TOMCAT, " (LTS)")));
    r.push(fallback_option("7.0.109", owned("Tomcat 7.0.109 (EOL)")));
    assert(option_views(r@) =~= fallback_spec());
    r
}

/// The Tomcat catalog from the directories that were read: everything found,
/// newest first, each value once, with the built-in versions merged in and
/// sorted again, cut to the display limit with the default kept, and only the
/// default marked.
pub open spec fn load_spec(fetched: Seq<Listing>) -> Seq<OptionView> {
    let found = fetched_entries(fetched);
    let merged = merge_spec(dedup_spec(sort_options_spec(found)), fallback_spec());
    mark_default_spec(
        keep_values_spec(sort_options_spec(merged), TOMCAT_MAX_OPTIONS as nat, tomcat_required_spec()),
        DEFAULT_TOMCAT@,
    )
}

/// The note on an archive directory that was read but linked no stable version.
pub open spec fn tomcat_empty_note() -> Seq<char> {
    "未解析到可用版本"@
}

/// Builds the Tomcat catalog from what reading each major's archive directory
/// gave (a name such as "Tomcat 9", and its parsed listing or the error). When
/// no directory gave a version the answer is an error naming what each gave;
/// built-in versions are never offered alone.
pub fn load_from_listings(fetched: Vec<Listing>) -> (r: Result<Vec<VersionOption>, String>)
    ensures
        fetched_entries(fetched@).len() > 0 ==> (r matches Ok(items) && option_views(items@)
            == load_spec(fetched@)),
        fetched_entries(fetched@).len() == 0 ==> (r matches Err(e) && e@ == "实时获取 Tomcat 版本失败: "@
            + join_with(listing_notes(fetched@, tomcat_empty_note()), "; "@)),
{
    let (all, notes) = gather(&fetched, "未解析到可用版本");
    if all.len() == 0 {
        return Err(failure_message("实时获取 Tomcat 版本失败: ", &notes));
    }
    let sorted = sort_options(&all);
    let unique = dedup_by_value(sorted);
    let merged = merge_options(unique, fallback_versions());
    let resorted = sort_options(&merged);
    let required = tomcat_required_values();
    let limited = limit_keep_values(resorted, TOMCAT_MAX_OPTIONS, required.as_slice());
    Ok(mark_default(limited, DEFAULT_TOMCAT))
}

} // verus!
