//! Maven versions from the Maven Central metadata: only stable 3.x releases.

use vstd::prelude::*;
use crate::text::{chars_of, owned, concat2, str_eq, starts_with_chars, contains_char, starts_with_text};
use crate::types::{VersionOption, OptionView, option_views};
use crate::version_policy::DEFAULT_MAVEN;
use crate::version_catalog::semver::{dotted_numeric, is_dotted_numeric};
use crate::version_catalog::pattern::{capture_group1, captured_texts, string_views};
use crate::version_catalog::options::{
    option, mark_default, limit_keep_default, mark_default_spec, keep_default_spec,
};
use crate::version_catalog::sort::{sort_options, sort_options_spec};

verus! {

/// Where the Maven release list is read from.
pub const MAVEN_METADATA_URL: &'static str =
    "https://repo.maven.apache.org/maven2/org/apache/maven/apache-maven/maven-metadata.xml";

/// The pattern whose group 1 is a version of the metadata.
pub const MAVEN_VERSION_PATTERN: &'static str = "<version>([^<]+)</version>";

/// How many Maven versions the catalog shows.
pub const MAVEN_MAX_OPTIONS: usize = 16;

/// A stable Maven 3 release: starts with "3.", has no `-` suffix, and every
/// dotted part is a number.
pub open spec fn stable_maven3(v: Seq<char>) -> bool {
    starts_with_text(v, seq!['3', '.']) && !v.contains('-') && dotted_numeric(v)
}

/// Whether `version` is a stable Maven 3 release.
pub fn is_stable_maven3(version: &str) -> (r: bool)
    ensures
        r == stable_maven3(version@),
{
    let cs = chars_of(version);
    let prefix: Vec<char> = vec!['3', '.'];
    proof {
        assert(prefix@ =~= seq!['3', '.']);
    }
    starts_with_chars(cs.as_slice(), prefix.as_slice()) && !contains_char(cs.as_slice(), '-')
        && is_dotted_numeric(cs.as_slice())
}

/// The catalog entry of Maven version `v`.
pub open spec fn maven_entry(v: Seq<char>) -> OptionView {
    OptionView {
        value: v,
        label: "Maven "@ + v,
        default: v == DEFAULT_MAVEN@,
        lts: false,
        source: "Apache Maven metadata"@,
    }
}

/// The entries of the stable Maven 3 versions among `vs`, in order.
pub open spec fn stable_entries(vs: Seq<Seq<char>>) -> Seq<OptionView>
    decreases vs.len(),
{
    if vs.len() == 0 {
        Seq::<OptionView>::empty()
    } else {
        let prev = stable_entries(vs.drop_last());
        if stable_maven3(vs.last()) {
            prev.push(maven_entry(vs.last()))
        } else {
            prev
        }
    }
}

/// The Maven catalog of a metadata document: the stable 3.x versions it lists,
/// newest first, at most 16 of them with the default 3.9.6 kept, and only the
/// default marked as such.
pub open spec fn parse_metadata_spec(text: Seq<char>) -> Seq<OptionView> {
    maven_catalog_spec(captured_texts(MAVEN_VERSION_PATTERN@, text))
}

/// The Maven catalog of the versions `vs` listed in the metadata.
pub open spec fn maven_catalog_spec(vs: Seq<Seq<char>>) -> Seq<OptionView> {
    mark_default_spec(
        keep_default_spec(
            sort_options_spec(stable_entries(vs)),
            MAVEN_MAX_OPTIONS as nat,
            DEFAULT_MAVEN@,
        ),
        DEFAULT_MAVEN@,
    )
}

/// Builds the Maven catalog from the text of `maven-metadata.xml`.
pub fn parse_metadata(text: &str) -> (r: Vec<VersionOption>)
    ensures
        option_views(r@) == parse_metadata_spec(text@),
{
    let versions = capture_group1(MAVEN_VERSION_PATTERN, text);
    maven_options_from(&versions)
}

/// Builds the Maven catalog from the versions listed in the metadata, in order.
pub fn maven_options_from(versions: &Vec<String>) -> (r: Vec<VersionOption>)
    ensures
        option_views(r@) == maven_catalog_spec(string_views(versions@)),
{
    let ghost vs = string_views(versions@);
    let mut items: Vec<VersionOption> = Vec::new();
    let mut i: usize = 0;
    while i < versions.len()
        invariant
            0 <= i <= versions@.len(),
            vs == string_views(versions@),
            option_views(items@) == stable_entries(vs.take(i as int)),
        decreases versions@.len() - i,
    {
        proof {
            assert(vs.take(i + 1).drop_last() =~= vs.take(i as int));
            assert(vs.take(i + 1).last() == versions@[i as int]@);
        }
        let v = versions[i].as_str();
        if is_stable_maven3(v) {
            let label = concat2("Maven ", v);
            let is_default = str_eq(v, DEFAULT_MAVEN);
            let o = option(v, label, is_default, false, "Apache Maven metadata");
            let ghost before = items@;
            items.push(o);
            proof {
                assert(option_views(items@) =~= option_views(before).push(maven_entry(v@)));
            }
        }
        i += 1;
    }
    proof {
        assert(vs.take(versions@.len() as int) =~= vs);
    }
    let sorted = sort_options(&items);
    let limited = limit_keep_default(sorted, MAVEN_MAX_OPTIONS, DEFAULT_MAVEN);
    mark_default(limited, DEFAULT_MAVEN)
}

/// The Maven catalog of a metadata document, or the error when the document
/// lists no stable 3.x release.
pub fn load_from_metadata(text: &str) -> (r: Result<Vec<VersionOption>, String>)
    ensures
        parse_metadata_spec(text@).len() > 0 ==> (r matches Ok(items) && option_views(items@)
            == parse_metadata_spec(text@)),
        parse_metadata_spec(text@).len() == 0 ==> (r matches Err(e) && e@
            == "实时获取 Maven 版本失败: 未解析到 Maven 3 稳定版"@),
{
    let items = parse_metadata(text);
    if items.len() == 0 {
        Err(owned("实时获取 Maven 版本失败: 未解析到 Maven 3 稳定版"))
    } else {
        Ok(items)
    }
}

} // verus!
