//! What the component installers compute between their outside steps: install
//! directories, the MSI command, how an exit code is read, the environment each
//! component needs, where an extracted archive's content is, and Maven's
//! `settings.xml`.

use vstd::prelude::*;
use crate::text::{chars_of, concat2, concat3, owned, u32_to_text, decimal};
use crate::version_catalog::pattern::string_views;
use crate::version_policy::{major_from_version, jdk_install_dir_name};

verus! {

/// Where Node.js is installed under `install_root`.
pub fn node_install_dir(install_root: &str) -> (r: String)
    ensures
        r@ == install_root@ + "\\nodejs"@,
{
    concat2(install_root, "\\nodejs")
}

/// The arguments of the silent `msiexec` install of `msi_path` into `node_dir`.
pub fn msi_install_args(msi_path: &str, node_dir: &str) -> (r: Vec<String>)
    ensures
        string_views(r@) == seq![
            "/i"@,
            msi_path@,
            "/qn"@,
            "/norestart"@,
            "INSTALLDIR="@ + node_dir@,
            "ADDLOCAL=ALL"@,
        ],
{
    let mut r: Vec<String> = Vec::new();
    r.push(owned("/i"));
    r.push(owned(msi_path));
    r.push(owned("/qn"));
    r.push(owned("/norestart"));
    r.push(concat2("INSTALLDIR=", node_dir));
    r.push(owned("ADDLOCAL=ALL"));
    assert(string_views(r@) =~= seq![
        "/i"@,
        msi_path@,
        "/qn"@,
        "/norestart"@,
        "INSTALLDIR="@ + node_dir@,
        "ADDLOCAL=ALL"@,
    ]);
    r
}

/// The decimal text of a signed number, with a leading `-` when negative.
pub open spec fn signed_decimal(n: int) -> Seq<char> {
    if n < 0 {
        "-"@ + decimal((-n) as nat)
    } else {
        decimal(n as nat)
    }
}

fn i32_to_text(n: i32) -> (r: String)
    ensures
        r@ == signed_decimal(n as int),
{
    if n < 0 {
        let m: u32 = if n == i32::MIN {
            2147483648u32
        } else {
            (-n) as u32
        };
        let t = u32_to_text(m);
        concat2("-", t.as_str())
    } else {
        u32_to_text(n as u32)
    }
}

/// Reads the exit code of the Node.js `msiexec` install (-1 when there was none):
/// 0 is success and 3010 success pending a restart; anything else is an error
/// quoting the code and the error output.
pub fn msi_install_result(exit_code: i32, stderr: &str) -> (r: Result<(), String>)
    ensures
        (exit_code == 0 || exit_code == 3010) <==> r is Ok,
        !(exit_code == 0 || exit_code == 3010) ==> (r matches Err(e) && e@
            == "Node.js MSI 安装失败 (exit "@ + signed_decimal(exit_code as int) + "): "@ + stderr@),
{
    if exit_code == 0 || exit_code == 3010 {
        Ok(())
    } else {
        let code = i32_to_text(exit_code);
        let head = concat3("Node.js MSI 安装失败 (exit ", code.as_str(), "): ");
        Err(concat2(head.as_str(), stderr))
    }
}

/// The directory a JDK version is installed into: "jdk" and its major.
pub fn jdk_target_name(version: &str) -> (r: String)
    ensures
        r@ == "jdk"@ + crate::text::split_on(version@, seq!['.'])[0],
{
    let major = major_from_version(version);
    jdk_install_dir_name(major.as_str())
}

/// Where an archive of a component is extracted before it is moved into place.
pub fn extract_dir(install_root: &str, extract_suffix: &str) -> (r: String)
    ensures
        r@ == install_root@ + "\\_"@ + extract_suffix@ + "_extract"@,
{
    let head = concat3(install_root, "\\_", extract_suffix);
    concat2(head.as_str(), "_extract")
}

/// Where a component is finally installed.
pub fn install_target(install_root: &str, target_name: &str) -> (r: String)
    ensures
        r@ == install_root@ + "\\"@ + target_name@,
{
    concat3(install_root, "\\", target_name)
}

/// Which directory holds the content of an extracted archive: the archive's
/// top-level directory `candidate` when it is a directory; else `extract_dir`
/// itself when files lie directly in it (a flat archive, whose folders stay with
/// its files); else the first directory found in `extract_dir`; with none of
/// these the archive is reported empty.
pub fn extracted_source(
    extract_dir: &str,
    candidate: &str,
    candidate_is_dir: bool,
    first_dir: Option<String>,
    has_direct_files: bool,
) -> (r: Result<String, String>)
    ensures
        candidate_is_dir ==> (r matches Ok(s) && s@ == candidate@),
        !candidate_is_dir && has_direct_files ==> (r matches Ok(s) && s@ == extract_dir@),
        !candidate_is_dir && !has_direct_files && first_dir is Some ==> (r matches Ok(s) && s@
            == first_dir->0@),
        !candidate_is_dir && !has_direct_files && first_dir is None ==> (r matches Err(e) && e@
            == "解压目录 "@ + extract_dir@ + " 中未找到有效内容"@),
{
    if candidate_is_dir {
        Ok(owned(candidate))
    } else if has_direct_files {
        Ok(owned(extract_dir))
    } else {
        match first_dir {
            Some(d) => Ok(d),
            None => Err(concat3("解压目录 ", extract_dir, " 中未找到有效内容")),
        }
    }
}

/// The text of Maven's `settings.xml` before the local repository path.
pub const SETTINGS_HEAD: &'static str = "<?xml version=\"1.0\" encoding=\"UTF-8\"?>\n<settings xmlns=\"http://maven.apache.org/SETTINGS/1.2.0\"\n          xmlns:xsi=\"http://www.w3.org/2001/XMLSchema-instance\"\n          xsi:schemaLocation=\"http://maven.apache.org/SETTINGS/1.2.0 https://maven.apache.org/xsd/settings-1.2.0.xsd\">\n    <localRepository>";

/// The text of Maven's `settings.xml` after the local repository path.
pub const SETTINGS_TAIL: &'static str = "</localRepository>\n    <mirrors>\n        <mirror>\n            <id>aliyunmaven</id>\n            <mirrorOf>*</mirrorOf>\n            <name>阿里云公共仓库</name>\n            <url>https://maven.aliyun.com/repository/public</url>\n        </mirror>\n    </mirrors>\n</settings>";

/// The local repository of a Maven install in `maven_home`.
pub fn maven_repo_dir(maven_home: &str) -> (r: String)
    ensures
        r@ == maven_home@ + "\\mvn_repo"@,
{
    concat2(maven_home, "\\mvn_repo")
}

/// Maven's `settings.xml` for an install in `maven_home`: the Aliyun public
/// mirror for everything, and the local repository inside the install.
pub fn settings_xml(maven_home: &str) -> (r: String)
    ensures
        r@ == SETTINGS_HEAD@ + (maven_home@ + "\\mvn_repo"@) + SETTINGS_TAIL@,
{
    let repo = maven_repo_dir(maven_home);
    concat3(SETTINGS_HEAD, repo.as_str(), SETTINGS_TAIL)
}

/// Where Maven's `settings.xml` is written.
pub fn settings_xml_path(maven_home: &str) -> (r: String)
    ensures
        r@ == maven_home@ + "\\conf\\settings.xml"@,
{
    concat2(maven_home, "\\conf\\settings.xml")
}

} // verus!
