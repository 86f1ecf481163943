//! MySQL versions from the Windows ZIP listings of the mirror directories,
//! with the versions the installer relies on always offered.

use vstd::prelude::*;
use crate::text::{concat2, concat3, str_eq, texts};
use crate::types::{VersionOption, OptionView, option_views};
use crate::version_policy::{
    DEFAULT_MYSQL, MYSQL_MAX_OPTIONS, MYSQL_CATALOG_PATTERN, mysql_required_values,
    mysql_required_spec, mysql_supported_series, mysql_series_spec, mysql_directory_name,
};
use crate::version_catalog::pattern::{capture_group1, captured_texts, string_views};
use crate::version_catalog::options::{
    option, mark_default, merge_options, dedup_by_value, limit_keep_values, dedup_adjacent,
    mark_default_spec, merge_spec, dedup_spec, keep_values_spec, dedup_adjacent_spec,
};
use crate::version_catalog::sort::{sort_options, sort_options_spec};
use crate::version_catalog::listings::{Listing, fetched_entries, listing_notes, gather, failure_message};
use crate::text::join_with;

verus! {

/// The catalog entry of MySQL version `v` found at `source`.
pub open spec fn mysql_option_spec(v: Seq<char>, source: Seq<char>) -> OptionView {
    OptionView {
        value: v,
        label: "MySQL "@ + v,
        default: v == DEFAULT_MYSQL@,
        lts: false,
        source,
    }
}

/// The catalog entry of MySQL version `value` found at `source`.
pub fn mysql_option(value: &str, source: &str) -> (r: VersionOption)
    ensures
        r@ == mysql_option_spec(value@, source@),
{
    let is_default = str_eq(value, DEFAULT_MYSQL);
    option(value, concat2("MySQL ", value), is_default, false, source)
}

/// The versions the installer relies on, as entries.
pub open spec fn required_mysql_options_spec() -> Seq<OptionView> {
    mysql_required_spec().map_values(|v: Seq<char>| mysql_option_spec(v, "MySQL 官方 Archives"@))
}

/// The versions the installer relies on, as entries.
pub fn required_mysql_options() -> (r: Vec<VersionOption>)
    ensures
        option_views(r@) == required_mysql_options_spec(),
{
    let values = mysql_required_values();
    let mut r: Vec<VersionOption> = Vec::new();
    let mut i: usize = 0;
    while i < values.len()
        invariant
            texts(values@) == mysql_required_spec(),
            0 <= i <= values@.len(),
            option_views(r@) == required_mysql_options_spec().take(i as int),
        decreases values@.len() - i,
    {
        let o = mysql_option(values[i], "MySQL 官方 Archives");
        let ghost before = r@;
        r.push(o);
        proof {
            assert(texts(values@)[i as int] == values@[i as int]@);
            assert(option_views(r@) =~= option_views(before).push(o@));
            assert(option_views(r@) =~= required_mysql_options_spec().take(i + 1));
        }
        i += 1;
    }
    proof {
        assert(required_mysql_options_spec().take(values@.len() as int) =~= required_mysql_options_spec());
    }
    r
}

/// The entries of versions `vs` found at `source`, in order.
pub open spec fn mysql_entries(vs: Seq<Seq<char>>, source: Seq<char>) -> Seq<OptionView> {
    vs.map_values(|v: Seq<char>| mysql_option_spec(v, source))
}

/// The versions of a directory listing: the Windows x64 ZIPs of the supported
/// series, newest first, each version once.
pub open spec fn parse_html_spec(text: Seq<char>, source: Seq<char>) -> Seq<OptionView> {
    listing_options_spec(captured_texts(MYSQL_CATALOG_PATTERN@, text), source)
}

/// The entries of the versions `vs` found at `source`: newest first, repeats
/// next to each other dropped.
pub open spec fn listing_options_spec(vs: Seq<Seq<char>>, source: Seq<char>) -> Seq<OptionView> {
    dedup_adjacent_spec(sort_options_spec(mysql_entries(vs, source)))
}

/// Reads the versions of a mirror's directory listing.
pub fn parse_html(text: &str, source: &str) -> (r: Vec<VersionOption>)
    ensures
        option_views(r@) == parse_html_spec(text@, source@),
{
    let versions = capture_group1(MYSQL_CATALOG_PATTERN, text);
    mysql_options_from(&versions, source)
}

/// The entries of the versions found in a listing at `source`, in listing order.
pub fn mysql_options_from(versions: &Vec<String>, source: &str) -> (r: Vec<VersionOption>)
    ensures
        option_views(r@) == listing_options_spec(string_views(versions@), source@),
{
    let ghost vs = string_views(versions@);
    let mut items: Vec<VersionOption> = Vec::new();
    let mut i: usize = 0;
    while i < versions.len()
        invariant
            0 <= i <= versions@.len(),
            vs == string_views(versions@),
            option_views(items@) == mysql_entries(vs.take(i as int), source@),
        decreases versions@.len() - i,
    {
        let o = mysql_option(versions[i].as_str(), source);
        let ghost before = items@;
        items.push(o);
        proof {
            assert(vs[i as int] == versions@[i as int]@);
            assert(option_views(items@) =~= option_views(before).push(o@));
            assert(option_views(items@) =~= mysql_entries(vs.take(i + 1), source@));
        }
        i += 1;
    }
    proof {
        assert(vs.take(versions@.len() as int) =~= vs);
    }
    let sorted = sort_options(&items);
    dedup_adjacent(&sorted)
}

/// The mirror directory URLs to read, each with the name of its mirror: for every
/// supported series, the Aliyun and then the Huawei Cloud directory.
pub open spec fn catalog_sources_spec() -> Seq<(Seq<char>, Seq<char>)> {
    mysql_series_spec().map_values(|s: Seq<char>| seq![
        ("https://mirrors.aliyun.com/mysql/"@ + ("MySQL-"@ + s) + "/"@, "阿里云 MySQL 镜像"@),
        ("https://mirrors.huaweicloud.com/mysql/Downloads/"@ + ("MySQL-"@ + s) + "/"@, "华为云 MySQL 镜像"@),
    ]).flatten()
}

/// The views of a list of (URL, mirror name) pairs.
pub open spec fn source_views(v: Seq<(String, &'static str)>) -> Seq<(Seq<char>, Seq<char>)> {
    v.map_values(|p: (String, &'static str)| (p.0@, p.1@))
}

/// The mirror directory URLs to read, each with the name of its mirror.
pub fn catalog_sources() -> (r: Vec<(String, &'static str)>)
    ensures
        source_views(r@) == catalog_sources_spec(),
{
    let series = mysql_supported_series();
    let ghost pieces = mysql_series_spec().map_values(|s: Seq<char>| seq![
        ("https://mirrors.aliyun.com/mysql/"@ + ("MySQL-"@ + s) + "/"@, "阿里云 MySQL 镜像"@),
        ("https://mirrors.huaweicloud.com/mysql/Downloads/"@ + ("MySQL-"@ + s) + "/"@, "华为云 MySQL 镜像"@),
    ]);
    let mut r: Vec<(String, &'static str)> = Vec::new();
    let mut i: usize = 0;
    while i < series.len()
        invariant
            texts(series@) == mysql_series_spec(),
            pieces == mysql_series_spec().map_values(|s: Seq<char>| seq![
                ("https://mirrors.aliyun.com/mysql/"@ + ("MySQL-"@ + s) + "/"@, "阿里云 MySQL 镜像"@),
                ("https://mirrors.huaweicloud.com/mysql/Downloads/"@ + ("MySQL-"@ + s) + "/"@, "华为云 MySQL 镜像"@),
            ]),
            0 <= i <= series@.len(),
            source_views(r@) == pieces.take(i as int).flatten(),
        decreases series@.len() - i,
    {
        let dir = mysql_directory_name(series[i]);
        let aliyun = concat3("https://mirrors.aliyun.com/mysql/", dir.as_str(), "/");
        let huawei = concat3("https://mirrors.huaweicloud.com/mysql/Downloads/", dir.as_str(), "/");
        let ghost before = r@;
        r.push((aliyun, "阿里云 MySQL 镜像"));
        r.push((huawei, "华为云 MySQL 镜像"));
        proof {
            assert(texts(series@)[i as int] == series@[i as int]@);
            assert(pieces.take(i + 1) =~= pieces.take(i as int).push(pieces[i as int]));
            pieces.take(i as int).lemma_flatten_push(pieces[i as int]);
            assert(source_views(r@) =~= source_views(before) + pieces[i as int]);
        }
        i += 1;
    }
    proof {
        assert(pieces.take(series@.len() as int) =~= pieces);
    }
    r
}

/// The MySQL catalog from the listings: everything found plus the versions the
/// installer relies on, each value once, newest first, cut to the display limit
/// with the relied-on versions kept, and only the default marked.
pub open spec fn load_spec(fetched: Seq<Listing>) -> Seq<OptionView> {
    let all = dedup_spec(merge_spec(fetched_entries(fetched), required_mysql_options_spec()));
    mark_default_spec(
        keep_values_spec(sort_options_spec(all), MYSQL_MAX_OPTIONS as nat, mysql_required_spec()),
        DEFAULT_MYSQL@,
    )
}

/// The note on a mirror listing that was read but held no Windows ZIP.
pub open spec fn mysql_empty_note() -> Seq<char> {
    "未解析到 Windows ZIP 版本"@
}

/// Builds the MySQL catalog from what reading each of `catalog_sources()` gave
/// (the mirror's name, and its parsed listing or the error). When no listing
/// gave a version, the catalog is not made up from the pinned versions alone:
/// the answer is an error naming what each mirror gave.
pub fn load_from_listings(fetched: Vec<Listing>) -> (r: Result<Vec<VersionOption>, String>)
    ensures
        fetched_entries(fetched@).len() > 0 ==> (r matches Ok(items) && option_views(items@)
            == load_spec(fetched@)),
        fetched_entries(fetched@).len() == 0 ==> (r matches Err(e) && e@ == "实时获取 MySQL 版本失败: "@
            + join_with(listing_notes(fetched@, mysql_empty_note()), "; "@)),
{
    let (all, notes) = gather(&fetched, "未解析到 Windows ZIP 版本");
    if all.len() == 0 {
        return Err(failure_message("实时获取 MySQL 版本失败: ", &notes));
    }
    let merged = merge_options(all, required_mysql_options());
    let unique = dedup_by_value(merged);
    let sorted = sort_options(&unique);
    let required = mysql_required_values();
    let limited = limit_keep_values(sorted, MYSQL_MAX_OPTIONS, required.as_slice());
    Ok(mark_default(limited, DEFAULT_MYSQL))
}

} // verus!
