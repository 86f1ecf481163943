//! Node.js versions from the release indexes of the Node mirrors: stable
//! releases with a Windows x64 MSI, LTS lines first, with the classic LTS
//! releases always offered.

use vstd::prelude::*;
use crate::text::{
    chars_of, concat2, concat3, str_eq, contains_char, trim_start_chars, trim_start_char,
    string_from_chars, join_with,
};
use crate::types::{VersionOption, OptionView, option_views};
use crate::version_policy::{
    DEFAULT_NODEJS, NODE_MAX_OPTIONS, node_classic_lts, node_classic_lts_spec, pin_views,
    node_required_values, node_required_spec,
};
use crate::version_catalog::semver::{parse_semver, semver_parts};
use crate::version_catalog::sort::{version_order, sort_order, order_view, key_views};
use crate::version_catalog::pattern::string_views;
use crate::version_catalog::options::{
    option, mark_default, merge_options, dedup_by_value, limit_keep_values, mark_default_spec,
    merge_spec, dedup_spec, keep_values_spec,
};
use crate::version_catalog::sort::{sort_options, sort_options_spec};

verus! {

/// The `lts` field of a release in the index: `false` for a current release,
/// the LTS codename (a string) for an LTS release, `null` or absent in old
/// entries, and anything else JSON allows.
pub enum LtsField {
    Null,
    Bool(bool),
    Text(String),
    Other,
}

/// One release of a Node.js `index.json`, as far as the catalog reads it.
pub struct NodeRelease {
    pub version: String,
    pub lts: LtsField,
    pub files: Vec<String>,
}

/// A release counts as LTS unless its `lts` field is `false` or `null`.
pub open spec fn marks_lts(l: LtsField) -> bool {
    !(l is Null) && !(l == LtsField::Bool(false))
}

/// The model of a release: its version text, whether it is LTS, its file kinds.
pub struct ReleaseView {
    pub version: Seq<char>,
    pub lts: bool,
    pub files: Seq<Seq<char>>,
}

impl View for NodeRelease {
    type V = ReleaseView;

    open spec fn view(&self) -> ReleaseView {
        ReleaseView { version: self.version@, lts: marks_lts(self.lts), files: string_views(self.files@) }
    }
}

/// The models of a list of releases.
pub open spec fn release_views(rs: Seq<NodeRelease>) -> Seq<ReleaseView> {
    rs.map_values(|r: NodeRelease| r@)
}

/// The version value of a release: its version text without leading `v`s.
pub open spec fn release_value(r: ReleaseView) -> Seq<char> {
    trim_start_char(r.version, 'v')
}

/// A release the installer can offer: it ships a Windows x64 MSI and is not a
/// pre-release (its value has no `-`).
pub open spec fn installable(r: ReleaseView) -> bool {
    r.files.contains("win-x64-msi"@) && !release_value(r).contains('-')
}

/// The display label of Node.js `value`: "v20.19.0 (LTS)" or "v26.0.0".
pub open spec fn node_label(value: Seq<char>, lts: bool) -> Seq<char> {
    if lts {
        "v"@ + value + " (LTS)"@
    } else {
        "v"@ + value
    }
}

/// The catalog entry of a release found at `source`.
pub open spec fn node_entry(r: ReleaseView, source: Seq<char>) -> OptionView {
    OptionView {
        value: release_value(r),
        label: node_label(release_value(r), r.lts),
        default: release_value(r) == DEFAULT_NODEJS@,
        lts: r.lts,
        source,
    }
}

/// The entries of the installable releases among `rs` whose LTS flag is `lts`, in order.
pub open spec fn release_entries(rs: Seq<ReleaseView>, lts: bool, source: Seq<char>) -> Seq<
    OptionView,
>
    decreases rs.len(),
{
    if rs.len() == 0 {
        Seq::<OptionView>::empty()
    } else {
        let prev = release_entries(rs.drop_last(), lts, source);
        let r = rs.last();
        if installable(r) && r.lts == lts {
            prev.push(node_entry(r, source))
        } else {
            prev
        }
    }
}

/// The parsed version of every release.
pub open spec fn release_keys(rs: Seq<ReleaseView>) -> Seq<Seq<u32>> {
    rs.map_values(|r: ReleaseView| semver_parts(r.version))
}

/// The releases sorted newest first by version; equal versions keep their order.
pub open spec fn sorted_releases(rs: Seq<ReleaseView>) -> Seq<ReleaseView> {
    sort_order(release_keys(rs), rs.len()).map_values(|i: int| rs[i])
}

/// The classic LTS releases as entries.
pub open spec fn classic_lts_options_spec() -> Seq<OptionView> {
    node_classic_lts_spec().map_values(
        |p: (Seq<char>, Seq<char>)|
            OptionView {
                value: p.0,
                label: node_label(p.0, true),
                default: p.0 == DEFAULT_NODEJS@,
                lts: true,
                source: "Node.js "@ + p.1 + " LTS"@,
            },
    )
}

/// The Node.js catalog of a release index: the installable LTS releases with
/// the classic LTS releases merged in, each value once, newest first; then the
/// installable current releases, each value once; cut to the display limit with
/// the classic LTS releases kept, and only the default marked.
pub open spec fn parse_releases_spec(rs: Seq<ReleaseView>, source: Seq<char>) -> Seq<OptionView> {
    let sorted = sorted_releases(rs);
    let lts = sort_options_spec(
        dedup_spec(merge_spec(release_entries(sorted, true, source), classic_lts_options_spec())),
    );
    let current = dedup_spec(release_entries(sorted, false, source));
    mark_default_spec(
        keep_values_spec(dedup_spec(lts + current), NODE_MAX_OPTIONS as nat, node_required_spec()),
        DEFAULT_NODEJS@,
    )
}

/// The classic LTS releases as entries.
pub fn classic_lts_options() -> (r: Vec<VersionOption>)
    ensures
        option_views(r@) == classic_lts_options_spec(),
{
    let pins = node_classic_lts();
    let mut r: Vec<VersionOption> = Vec::new();
    let mut i: usize = 0;
    while i < pins.len()
        invariant
            pin_views(pins@) == node_classic_lts_spec(),
            0 <= i <= pins@.len(),
            option_views(r@) == classic_lts_options_spec().take(i as int),
        decreases pins@.len() - i,
    {
        let (version, codename) = pins[i];
        let label = concat3("v", version, " (LTS)");
        let source = concat3("Node.js ", codename, " LTS");
        let is_default = str_eq(version, DEFAULT_NODEJS);
        let o = option(version, label, is_default, true, source.as_str());
        let ghost before = r@;
        r.push(o);
        proof {
            assert(pin_views(pins@)[i as int] == (version@, codename@));
            assert(option_views(r@) =~= option_views(before).push(o@));
            assert(option_views(r@) =~= classic_lts_options_spec().take(i + 1));
        }
        i += 1;
    }
    proof {
        assert(classic_lts_options_spec().take(pins@.len() as int) =~= classic_lts_options_spec());
    }
    r
}

/// Whether `files` lists a Windows x64 MSI.
fn ships_msi(files: &Vec<String>) -> (r: bool)
    ensures
        r == string_views(files@).contains("win-x64-msi"@),
{
    let mut i: usize = 0;
    while i < files.len()
        invariant
            0 <= i <= files@.len(),
            forall|j: int| 0 <= j < i ==> files@[j]@ != "win-x64-msi"@,
        decreases files@.len() - i,
    {
        if str_eq(files[i].as_str(), "win-x64-msi") {
            assert(string_views(files@)[i as int] == "win-x64-msi"@);
            return true;
        }
        i += 1;
    }
    proof {
        if string_views(files@).contains("win-x64-msi"@) {
            let j = choose|j: int| 0 <= j < files@.len() && string_views(files@)[j] == "win-x64-msi"@;
            assert(files@[j]@ == "win-x64-msi"@);
        }
    }
    false
}

fn is_marked_lts(l: &LtsField) -> (r: bool)
    ensures
        r == marks_lts(*l),
{
    match l {
        LtsField::Null => false,
        LtsField::Bool(b) => *b,
        _ => true,
    }
}

/// The catalog entry of an installable release, or `None` for one the installer
/// cannot offer.
fn release_option(release: &NodeRelease, source: &str) -> (r: Option<VersionOption>)
    ensures
        installable(release@) ==> (r matches Some(o) && o@ == node_entry(release@, source@)),
        !installable(release@) ==> r is None,
{
    if !ships_msi(&release.files) {
        return None;
    }
    let cs = chars_of(release.version.as_str());
    let trimmed = trim_start_chars(cs.as_slice(), 'v');
    if contains_char(trimmed.as_slice(), '-') {
        return None;
    }
    let value = string_from_chars(trimmed.as_slice());
    let is_lts = is_marked_lts(&release.lts);
    let label = if is_lts {
        concat3("v", value.as_str(), " (LTS)")
    } else {
        concat2("v", value.as_str())
    };
    let is_default = str_eq(value.as_str(), DEFAULT_NODEJS);
    Some(option(value.as_str(), label, is_default, is_lts, source))
}

/// Builds the Node.js catalog from the releases of an index read from `source`.
pub fn parse_releases(releases: Vec<NodeRelease>, source: &str) -> (r: Vec<VersionOption>)
    ensures
        option_views(r@) == parse_releases_spec(release_views(releases@), source@),
{
    let ghost rv = release_views(releases@);
    let mut keys: Vec<Vec<u32>> = Vec::new();
    let mut i: usize = 0;
    while i < releases.len()
        invariant
            0 <= i <= releases@.len(),
            rv == release_views(releases@),
            key_views(keys@) == release_keys(rv).take(i as int),
            keys@.len() == i,
        decreases releases@.len() - i,
    {
        let k = parse_semver(releases[i].version.as_str());
        let ghost kg = k@;
        let ghost prev = keys@;
        keys.push(k);
        proof {
            assert(keys@[i as int]@ == kg);
            assert(release_keys(rv)[i as int] == semver_parts(releases@[i as int].version@));
            assert(key_views(keys@) =~= key_views(prev).push(kg));
            assert(key_views(keys@) =~= release_keys(rv).take(i + 1));
        }
        i += 1;
    }
    proof {
        assert(release_keys(rv).take(releases@.len() as int) =~= release_keys(rv));
    }
    let order = version_order(&keys);
    let ghost sorted = sorted_releases(rv);
    proof {
        assert(sorted =~= order_view(order@).map_values(|k: int| rv[k]));
    }
    let mut lts_items: Vec<VersionOption> = Vec::new();
    let mut current_items: Vec<VersionOption> = Vec::new();
    let mut j: usize = 0;
    while j < order.len()
        invariant
            0 <= j <= order@.len(),
            keys@.len() == releases@.len(),
            forall|k: int| 0 <= k < order@.len() ==> #[trigger] order@[k] < keys@.len(),
            rv == release_views(releases@),
            sorted == order_view(order@).map_values(|k: int| rv[k]),
            option_views(lts_items@) == release_entries(sorted.take(j as int), true, source@),
            option_views(current_items@) == release_entries(
                sorted.take(j as int),
                false,
                source@,
            ),
        decreases order@.len() - j,
    {
        let release = &releases[order[j]];
        proof {
            assert(sorted.take(j + 1).drop_last() =~= sorted.take(j as int));
            assert(sorted.take(j + 1).last() == release@);
        }
        match release_option(release, source) {
            Some(o) => {
                if o.lts {
                    let ghost before = lts_items@;
                    lts_items.push(o);
                    proof {
                        assert(option_views(lts_items@) =~= option_views(before).push(o@));
                    }
                } else {
                    let ghost before = current_items@;
                    current_items.push(o);
                    proof {
                        assert(option_views(current_items@) =~= option_views(before).push(o@));
                    }
                }
            },
            None => {},
        }
        j += 1;
    }
    proof {
        assert(sorted.take(order@.len() as int) =~= sorted);
    }
    let lts_merged = merge_options(lts_items, classic_lts_options());
    let lts_unique = dedup_by_value(lts_merged);
    let mut items = sort_options(&lts_unique);
    let mut current_unique = dedup_by_value(current_items);
    let ghost lts_part = option_views(items@);
    let ghost current_part = option_views(current_unique@);
    items.append(&mut current_unique);
    proof {
        assert(option_views(items@) =~= lts_part + current_part);
    }
    let unique = dedup_by_value(items);
    let required = node_required_values();
    let limited = limit_keep_values(unique, NODE_MAX_OPTIONS, required.as_slice());
    mark_default(limited, DEFAULT_NODEJS)
}

/// The release indexes the catalog tries, in order, each with its name: the
/// Tsinghua and npmmirror mirrors, then the official index.
pub fn node_index_sources() -> (r: Vec<(&'static str, &'static str)>)
    ensures
        pin_views(r@) == seq![
            ("https://mirrors.tuna.tsinghua.edu.cn/nodejs-release/index.json"@, "清华 Node 镜像"@),
            ("https://npmmirror.com/mirrors/node/index.json"@, "npmmirror Node 镜像"@),
            ("https://nodejs.org/dist/index.json"@, "Node 官方索引"@),
        ],
{
    let r: Vec<(&'static str, &'static str)> = vec![
        ("https://mirrors.tuna.tsinghua.edu.cn/nodejs-release/index.json", "清华 Node 镜像"),
        ("https://npmmirror.com/mirrors/node/index.json", "npmmirror Node 镜像"),
        ("https://nodejs.org/dist/index.json", "Node 官方索引"),
    ];
    assert(pin_views(r@) =~= seq![
        ("https://mirrors.tuna.tsinghua.edu.cn/nodejs-release/index.json"@, "清华 Node 镜像"@),
        ("https://npmmirror.com/mirrors/node/index.json"@, "npmmirror Node 镜像"@),
        ("https://nodejs.org/dist/index.json"@, "Node 官方索引"@),
    ]);
    r
}

/// The note recorded for an index that gave no usable catalog.
pub open spec fn attempt_note(source: Seq<char>, outcome: Result<Seq<OptionView>, Seq<char>>) -> Seq<
    char,
> {
    match outcome {
        Ok(_) => source + ": 未解析到可用 Windows x64 MSI 版本"@,
        Err(e) => source + ": "@ + e,
    }
}

/// The model of what reading one index gave.
pub open spec fn outcome_view(outcome: Result<Vec<VersionOption>, String>) -> Result<
    Seq<OptionView>,
    Seq<char>,
> {
    match outcome {
        Ok(v) => Ok(option_views(v@)),
        Err(e) => Err(e@),
    }
}

/// Takes what reading the index `source` gave: a non-empty catalog is the answer
/// (`Some`); otherwise a note on why it was not is added to `notes` and the next
/// index is to be tried (`None`).
pub fn node_attempt(
    notes: &mut Vec<String>,
    source: &str,
    outcome: Result<Vec<VersionOption>, String>,
) -> (r: Option<Vec<VersionOption>>)
    ensures
        match outcome {
            Ok(v) => v@.len() > 0,
            Err(_) => false,
        } ==> (r == Some(outcome->Ok_0) && final(notes)@ == old(notes)@),
        !match outcome {
            Ok(v) => v@.len() > 0,
            Err(_) => false,
        } ==> (r is None && string_views(final(notes)@) == string_views(old(notes)@).push(
            attempt_note(source@, outcome_view(outcome)),
        )),
{
    let ghost ov = outcome_view(outcome);
    match outcome {
        Ok(items) => {
            if items.len() > 0 {
                Some(items)
            } else {
                let ghost before = notes@;
                notes.push(concat2(source, ": 未解析到可用 Windows x64 MSI 版本"));
                proof {
                    assert(string_views(notes@) =~= string_views(before).push(attempt_note(source@, ov)));
                }
                None
            }
        },
        Err(e) => {
            let ghost before = notes@;
            notes.push(concat3(source, ": ", e.as_str()));
            proof {
                assert(string_views(notes@) =~= string_views(before).push(attempt_note(source@, ov)));
            }
            None
        },
    }
}

/// The error given when no index yielded a catalog: the notes joined by "; ".
pub fn node_load_error(notes: &Vec<String>) -> (r: String)
    ensures
        r@ == "实时获取 Node.js 版本失败: "@ + join_with(string_views(notes@), "; "@),
{
    let mut pieces: Vec<Vec<char>> = Vec::new();
    let mut i: usize = 0;
    while i < notes.len()
        invariant
            0 <= i <= notes@.len(),
            crate::text::views(pieces@) == string_views(notes@).take(i as int),
        decreases notes@.len() - i,
    {
        let ghost before = pieces@;
        pieces.push(chars_of(notes[i].as_str()));
        proof {
            assert(crate::text::views(pieces@) =~= crate::text::views(before).push(notes@[i as int]@));
            assert(string_views(notes@).take(i + 1) =~= string_views(notes@).take(i as int).push(
                notes@[i as int]@,
            ));
        }
        i += 1;
    }
    proof {
        assert(string_views(notes@).take(notes@.len() as int) =~= string_views(notes@));
    }
    let sep = chars_of("; ");
    let joined = crate::text::join_chars(&pieces, sep.as_slice());
    let body = string_from_chars(joined.as_slice());
    concat2("实时获取 Node.js 版本失败: ", body.as_str())
}

} // verus!
