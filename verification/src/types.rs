//! Data exchanged between the installer's front end and its back end.

use vstd::prelude::*;
use crate::text::owned;

verus! {

/// One entry of a version drop-down: the version value, its display label,
/// whether it is the project default, whether it is an LTS line, and where it came from.
pub struct VersionOption {
    pub value: String,
    pub label: String,
    pub default: bool,
    pub lts: bool,
    pub source: String,
}

/// The mathematical model of a catalog entry.
pub struct OptionView {
    pub value: Seq<char>,
    pub label: Seq<char>,
    pub default: bool,
    pub lts: bool,
    pub source: Seq<char>,
}

impl View for VersionOption {
    type V = OptionView;

    open spec fn view(&self) -> OptionView {
        OptionView {
            value: self.value@,
            label: self.label@,
            default: self.default,
            lts: self.lts,
            source: self.source@,
        }
    }
}

/// The models of a list of catalog entries.
pub open spec fn option_views(items: Seq<VersionOption>) -> Seq<OptionView> {
    items.map_values(|o: VersionOption| o@)
}

/// The model of an optional catalog entry.
pub open spec fn maybe_view(o: Option<VersionOption>) -> Option<OptionView> {
    match o {
        Some(x) => Some(x@),
        None => None,
    }
}

impl VersionOption {
    /// A field-by-field copy.
    pub fn duplicate(&self) -> (r: Self)
        ensures
            r == *self,
    {
        VersionOption {
            value: self.value.clone(),
            label: self.label.clone(),
            default: self.default,
            lts: self.lts,
            source: self.source.clone(),
        }
    }
}

/// The version lists of the core components.
pub struct VersionCatalog {
    pub nodejs: Vec<VersionOption>,
    pub jdk: Vec<VersionOption>,
    pub maven: Vec<VersionOption>,
    pub mysql: Vec<VersionOption>,
    pub tomcat: Vec<VersionOption>,
}

/// Result of detecting one component on the machine.
pub struct ComponentStatus {
    /// Display name, e.g. "Node.js".
    pub name: String,
    /// Whether the component was found.
    pub installed: bool,
    /// The version found (empty when not installed).
    pub version: String,
    /// The version the installer expects.
    pub expected_version: String,
    /// Whether the found version matches the expected one.
    pub version_match: bool,
}

/// A status event of the install process, pushed to the front end.
pub struct InstallEvent {
    pub component: String,
    /// download / install / config / complete / error
    pub phase: String,
    pub message: String,
    pub success: bool,
    pub done: bool,
}

/// The install parameters the user chose.
pub struct InstallConfig {
    pub install_root: String,
    pub mysql_password: String,
    pub install_nodejs: bool,
    pub install_jdk: bool,
    pub install_maven: bool,
    pub install_mysql: bool,
    pub install_tomcat: bool,
    pub install_idea: bool,
    pub install_navicat: bool,
    pub install_redis: bool,
    /// Only check that the downloads work; install nothing.
    pub dry_run: bool,
    pub node_version: String,
    pub jdk_version: String,
    pub maven_version: String,
    pub mysql_version: String,
    pub tomcat_version: String,
}

/// Reachability of one mirror URL.
pub struct PreflightResult {
    pub component: String,
    pub url: String,
    pub reachable: bool,
    /// HTTP status or error text.
    pub status: String,
    /// File size in bytes, 0 when unknown.
    pub file_size: u64,
}

/// Outcome of installing one component.
pub struct InstallResult {
    pub component: String,
    pub success: bool,
    pub message: String,
}

/// The download mirrors of a component, in priority order, and the file name to save as.
pub struct MirrorSource {
    pub urls: Vec<String>,
    pub filename: String,
}

/// Default Node.js version of an install configuration.
pub fn default_node_ver() -> (r: String)
    ensures
        r@ == "20.19.0"@,
{
    owned("20.19.0")
}

/// Default JDK version of an install configuration.
pub fn default_jdk_ver() -> (r: String)
    ensures
        r@ == "17"@,
{
    owned("17")
}

/// Default Maven version of an install configuration.
pub fn default_maven_ver() -> (r: String)
    ensures
        r@ == "3.9.6"@,
{
    owned("3.9.6")
}

/// Default MySQL version of an install configuration.
pub fn default_mysql_ver() -> (r: String)
    ensures
        r@ == "8.0.36"@,
{
    owned("8.0.36")
}

} // verus!
