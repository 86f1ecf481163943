//! Version policy shared by the catalogs, the installers and the rollback:
//! project defaults, which versions must stay selectable, and how versions map
//! to directory and service names.

use vstd::prelude::*;
use crate::text::{
    owned, concat2, concat3, u32_to_text, decimal, chars_of, starts_with_chars, starts_with_text,
    texts, split_chars, split_on, views, string_from_chars,
};

verus! {

/// Project default Node.js version.
pub const DEFAULT_NODEJS: &'static str = "20.19.0";
/// Project default JDK major version.
pub const DEFAULT_JDK: &'static str = "17";
/// Project default Maven version.
pub const DEFAULT_MAVEN: &'static str = "3.9.6";
/// Project default MySQL version.
pub const DEFAULT_MYSQL: &'static str = "8.0.36";
/// Project default Tomcat version.
pub const DEFAULT_TOMCAT: &'static str = "8.5.100";
/// IntelliJ IDEA version that is downloaded.
pub const DEFAULT_IDEA: &'static str = "2023.3.8";
/// Navicat Premium version that is downloaded.
pub const DEFAULT_NAVICAT: &'static str = "16.2";
/// Redis version that is downloaded.
pub const DEFAULT_REDIS: &'static str = "3.2.100";

/// How many JDK versions the catalog shows.
pub const JDK_MAX_OPTIONS: usize = 8;
/// How many MySQL versions the catalog shows.
pub const MYSQL_MAX_OPTIONS: usize = 12;
/// How many Node.js versions the catalog shows.
pub const NODE_MAX_OPTIONS: usize = 12;
/// How many Tomcat versions the catalog shows.
pub const TOMCAT_MAX_OPTIONS: usize = 12;


// ---------------------------------------------------------------------------
// JDK
// ---------------------------------------------------------------------------

/// The classic LTS majors that the JDK catalog always offers.
pub open spec fn jdk_classic_majors_spec() -> Seq<u32> {
    seq![8u32, 11u32, 17u32, 21u32]
}

/// The classic LTS majors that the JDK catalog always offers.
pub fn jdk_classic_majors() -> (r: Vec<u32>)
    ensures
        r@ == jdk_classic_majors_spec(),
{
    let r: Vec<u32> = vec![8, 11, 17, 21];
    assert(r@ =~= jdk_classic_majors_spec());
    r
}

/// The JDK versions that must stay selectable when the list is cut.
pub open spec fn jdk_required_spec() -> Seq<Seq<char>> {
    seq!["8"@, "11"@, "17"@, "21"@]
}

/// The JDK versions that must stay selectable when the list is cut.
pub fn jdk_required_values() -> (r: Vec<&'static str>)
    ensures
        texts(r@) == jdk_required_spec(),
{
    let r: Vec<&'static str> = vec!["8", "11", "17", "21"];
    assert(texts(r@) =~= jdk_required_spec());
    r
}

/// Majors the download chain covers.
pub open spec fn supported_jdk_major(major: u32) -> bool {
    major >= 8
}

/// Whether the download chain covers JDK `major`.
pub fn is_supported_major(major: u32) -> (r: bool)
    ensures
        r == supported_jdk_major(major),
{
    major >= 8
}

/// Whether `major` is one of the classic LTS majors.
pub open spec fn classic_jdk_lts(major: u32) -> bool {
    jdk_classic_majors_spec().contains(major)
}

/// Whether `major` is one of the classic LTS majors.
pub fn is_classic_lts(major: u32) -> (r: bool)
    ensures
        r == classic_jdk_lts(major),
{
    let majors = jdk_classic_majors();
    let mut i: usize = 0;
    while i < majors.len()
        invariant
            majors@ == jdk_classic_majors_spec(),
            0 <= i <= majors@.len(),
            forall|j: int| 0 <= j < i ==> majors@[j] != major,
        decreases majors@.len() - i,
    {
        if majors[i] == major {
            assert(majors@[i as int] == major);
            return true;
        }
        i += 1;
    }
    false
}

/// The display label of JDK `major`.
pub open spec fn jdk_label_spec(major: u32, lts: bool) -> Seq<char> {
    if lts {
        "JDK "@ + decimal(major as nat) + " (LTS)"@
    } else {
        "JDK "@ + decimal(major as nat)
    }
}

/// The display label of JDK `major`: "JDK 17 (LTS)" or "JDK 24".
pub fn jdk_label(major: u32, lts: bool) -> (r: String)
    ensures
        r@ == jdk_label_spec(major, lts),
{
    let m = u32_to_text(major);
    if lts {
        concat3("JDK ", m.as_str(), " (LTS)")
    } else {
        concat2("JDK ", m.as_str())
    }
}

/// The major of a JDK version text: the part before the first `.`.
pub fn major_from_version(version: &str) -> (r: String)
    ensures
        r@ == split_on(version@, seq!['.'])[0],
{
    let cs = chars_of(version);
    let seps: Vec<char> = vec!['.'];
    proof {
        assert(seps@ =~= seq!['.']);
        crate::text::lemma_split_nonempty(version@, seq!['.']);
    }
    let parts = split_chars(cs.as_slice(), seps.as_slice());
    assert(views(parts@)[0] == parts@[0]@);
    string_from_chars(parts[0].as_slice())
}

/// The directory a JDK major is installed into: "jdk17".
pub fn jdk_install_dir_name(major: &str) -> (r: String)
    ensures
        r@ == "jdk"@ + major@,
{
    concat2("jdk", major)
}


// ---------------------------------------------------------------------------
// MySQL
// ---------------------------------------------------------------------------

/// The MySQL versions that must stay selectable when the list is cut.
pub open spec fn mysql_required_spec() -> Seq<Seq<char>> {
    seq!["8.0.36"@, "5.7.44"@, "5.7.38"@]
}

/// The MySQL versions that must stay selectable when the list is cut.
pub fn mysql_required_values() -> (r: Vec<&'static str>)
    ensures
        texts(r@) == mysql_required_spec(),
{
    let r: Vec<&'static str> = vec!["8.0.36", "5.7.44", "5.7.38"];
    assert(texts(r@) =~= mysql_required_spec());
    r
}

/// The MySQL release series the installer supports.
pub open spec fn mysql_series_spec() -> Seq<Seq<char>> {
    seq!["8.0"@, "5.7"@]
}

/// The MySQL release series the installer supports.
pub fn mysql_supported_series() -> (r: Vec<&'static str>)
    ensures
        texts(r@) == mysql_series_spec(),
{
    let r: Vec<&'static str> = vec!["8.0", "5.7"];
    assert(texts(r@) =~= mysql_series_spec());
    r
}

/// The mirror directory of a MySQL series: "MySQL-8.0".
pub fn mysql_directory_name(series: &str) -> (r: String)
    ensures
        r@ == "MySQL-"@ + series@,
{
    concat2("MySQL-", series)
}

/// The pattern whose group 1 is a version of a Windows x64 ZIP of a supported series.
pub const MYSQL_CATALOG_PATTERN: &'static str = r"mysql-((?:8\.0|5\.7)\.\d+)-winx64\.zip";

/// The Windows service name of a MySQL version: 5.7 releases run as "MySQL57",
/// all others as "MySQL80".
pub open spec fn mysql_service_name_spec(version: Seq<char>) -> Seq<char> {
    if starts_with_text(version, seq!['5', '.', '7']) {
        "MySQL57"@
    } else {
        "MySQL80"@
    }
}

/// The Windows service name of a MySQL version.
pub fn mysql_service_name(version: &str) -> (r: &'static str)
    ensures
        r@ == mysql_service_name_spec(version@),
{
    let cs = chars_of(version);
    let prefix: Vec<char> = vec!['5', '.', '7'];
    assert(prefix@ =~= seq!['5', '.', '7']);
    if starts_with_chars(cs.as_slice(), prefix.as_slice()) {
        "MySQL57"
    } else {
        "MySQL80"
    }
}

/// The services that the installer manages and removes before installing.
pub fn mysql_managed_service_names() -> (r: Vec<&'static str>)
    ensures
        texts(r@) == seq!["MySQL80"@, "MySQL57"@],
{
    let r: Vec<&'static str> = vec!["MySQL80", "MySQL57"];
    assert(texts(r@) =~= seq!["MySQL80"@, "MySQL57"@]);
    r
}


// ---------------------------------------------------------------------------
// Node.js
// ---------------------------------------------------------------------------

/// The LTS releases the Node.js catalog always offers, with their codenames.
pub open spec fn node_classic_lts_spec() -> Seq<(Seq<char>, Seq<char>)> {
    seq![
        ("22.12.0"@, "Jod"@),
        ("20.19.0"@, "Iron"@),
        ("18.20.8"@, "Hydrogen"@),
        ("16.20.2"@, "Gallium"@),
    ]
}

/// The views of (version, codename) pairs.
pub open spec fn pin_views(v: Seq<(&'static str, &'static str)>) -> Seq<(Seq<char>, Seq<char>)> {
    v.map_values(|p: (&'static str, &'static str)| (p.0@, p.1@))
}

/// The LTS releases the Node.js catalog always offers, with their codenames.
pub fn node_classic_lts() -> (r: Vec<(&'static str, &'static str)>)
    ensures
        pin_views(r@) == node_classic_lts_spec(),
{
    let r: Vec<(&'static str, &'static str)> = vec![
        ("22.12.0", "Jod"),
        ("20.19.0", "Iron"),
        ("18.20.8", "Hydrogen"),
        ("16.20.2", "Gallium"),
    ];
    assert(pin_views(r@) =~= node_classic_lts_spec());
    r
}

/// The Node.js versions that must stay selectable when the list is cut: the
/// classic LTS releases.
pub open spec fn node_required_spec() -> Seq<Seq<char>> {
    seq!["22.12.0"@, "20.19.0"@, "18.20.8"@, "16.20.2"@]
}

/// The Node.js versions that must stay selectable when the list is cut.
pub fn node_required_values() -> (r: Vec<&'static str>)
    ensures
        texts(r@) == node_required_spec(),
{
    let r: Vec<&'static str> = vec!["22.12.0", "20.19.0", "18.20.8", "16.20.2"];
    assert(texts(r@) =~= node_required_spec());
    r
}

// ---------------------------------------------------------------------------
// Tomcat
// ---------------------------------------------------------------------------

/// The Tomcat major lines whose archive directories are read, newest first.
pub open spec fn tomcat_majors_spec() -> Seq<u32> {
    seq![11u32, 10u32, 9u32, 8u32]
}

/// The Tomcat major lines whose archive directories are read, newest first.
pub fn tomcat_supported_majors() -> (r: Vec<u32>)
    ensures
        r@ == tomcat_majors_spec(),
{
    let r: Vec<u32> = vec![11, 10, 9, 8];
    assert(r@ =~= tomcat_majors_spec());
    r
}

/// The Tomcat versions that must stay selectable when the list is cut.
pub open spec fn tomcat_required_spec() -> Seq<Seq<char>> {
    seq![DEFAULT_TOMCAT@]
}

/// The Tomcat versions that must stay selectable when the list is cut.
pub fn tomcat_required_values() -> (r: Vec<&'static str>)
    ensures
        texts(r@) == tomcat_required_spec(),
{
    let r: Vec<&'static str> = vec![DEFAULT_TOMCAT];
    assert(texts(r@) =~= tomcat_required_spec());
    r
}

/// The support note of a Tomcat version: 8.5, 9 and 10.1 are long-term lines,
/// 7 is end of life.
pub open spec fn tomcat_note_spec(version: Seq<char>) -> Seq<char> {
    if starts_with_text(version, "8.5."@) || starts_with_text(version, "9."@)
        || starts_with_text(version, "10.1."@) {
        " (LTS)"@
    } else if starts_with_text(version, "7."@) {
        " (EOL)"@
    } else {
        ""@
    }
}

/// The display label of a Tomcat version: "Tomcat 9.0.102 (LTS)".
pub open spec fn tomcat_label_spec(version: Seq<char>) -> Seq<char> {
    "Tomcat "@ + version + tomcat_note_spec(version)
}

/// The display label of a Tomcat version.
pub fn tomcat_label(version: &str) -> (r: String)
    ensures
        r@ == tomcat_label_spec(version@),
{
    let cs = chars_of(version);
    let p85 = chars_of("8.5.");
    let p9 = chars_of("9.");
    let p101 = chars_of("10.1.");
    let p7 = chars_of("7.");
    let note = if starts_with_chars(cs.as_slice(), p85.as_slice()) || starts_with_chars(
        cs.as_slice(),
        p9.as_slice(),
    ) || starts_with_chars(cs.as_slice(), p101.as_slice()) {
        " (LTS)"
    } else if starts_with_chars(cs.as_slice(), p7.as_slice()) {
        " (EOL)"
    } else {
        ""
    };
    concat3("Tomcat ", version, note)
}

/// The directory a Tomcat version is installed into: "apache-tomcat-9.0.102".
pub fn tomcat_install_dir_name(version: &str) -> (r: String)
    ensures
        r@ == "apache-tomcat-"@ + version@,
{
    concat2("apache-tomcat-", version)
}

} // verus!
