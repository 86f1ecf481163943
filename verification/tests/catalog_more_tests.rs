use devenv_installer::types::VersionOption;
use devenv_installer::version_catalog::jdk::{load_from_releases, AdoptiumReleases};
use devenv_installer::version_catalog::maven::{is_stable_maven3, load_from_metadata, maven_options_from};
use devenv_installer::version_catalog::mysql::{
    catalog_sources, mysql_option, mysql_options_from,
};
use devenv_installer::version_catalog::nodejs::{
    classic_lts_options, node_attempt, node_index_sources, node_load_error,
    LtsField, NodeRelease,
};
use devenv_installer::version_catalog::options::{
    dedup_by_value, limit_keep_values, mark_default, merge_options, option,
};
use devenv_installer::version_catalog::semver::{compare_semver_desc, parse_semver};
use devenv_installer::version_catalog::tomcat::{
    fallback_versions, is_stable, parse_directory_listing,
    tomcat_archive_url, tomcat_options_from,
};
use devenv_installer::version_policy::{tomcat_label, DEFAULT_TOMCAT, TOMCAT_MAX_OPTIONS};
use devenv_installer::version_catalog::{mysql, nodejs, tomcat};
use std::cmp::Ordering;

fn opt(v: &str) -> VersionOption {
    option(v, v.to_string(), false, false, "t")
}

#[test]
fn semver_parsing_and_order() {
    assert_eq!(parse_semver("v1.2.3-rc+4"), vec![1, 2, 3, 4]);
    assert_eq!(parse_semver("8.0.x"), vec![8, 0]);
    assert_eq!(compare_semver_desc("9.0.102", "9.0.99"), Ordering::Less);
    assert_eq!(compare_semver_desc("8", "8.0.0"), Ordering::Equal);
    assert_eq!(compare_semver_desc("10", "9.9"), Ordering::Less);
    assert_eq!(compare_semver_desc("1.2", "1.10"), Ordering::Greater);
}

#[test]
fn list_operations() {
    let merged = merge_options(vec![opt("1"), opt("2")], vec![opt("2"), opt("3"), opt("3")]);
    let values: Vec<&str> = merged.iter().map(|o| o.value.as_str()).collect();
    assert_eq!(values, vec!["1", "2", "3"]);
    let deduped = dedup_by_value(vec![opt("a"), opt("b"), opt("a")]);
    assert_eq!(deduped.len(), 2);
    let marked = mark_default(vec![opt("a"), opt("b")], "b");
    assert!(!marked[0].default && marked[1].default);
    let required = ["c"];
    let limited = limit_keep_values(vec![opt("a"), opt("b"), opt("c")], 2, &required);
    let values: Vec<&str> = limited.iter().map(|o| o.value.as_str()).collect();
    assert_eq!(values, vec!["a", "c"]);
}

#[test]
fn maven_rules_and_errors() {
    assert!(is_stable_maven3("3.9.6"));
    assert!(is_stable_maven3("3.+9.6"));
    assert!(!is_stable_maven3("3.9.6-beta"));
    assert!(!is_stable_maven3("4.0.0"));
    assert!(!is_stable_maven3("3..1"));
    assert_eq!(
        load_from_metadata("<version>4.0.0</version>").err(),
        Some(String::from("实时获取 Maven 版本失败: 未解析到 Maven 3 稳定版"))
    );
    assert_eq!(load_from_metadata("<version>3.9.6</version>").unwrap().len(), 1);
}

#[test]
fn jdk_catalog_is_never_empty() {
    let items = load_from_releases(AdoptiumReleases {
        available_lts_releases: vec![],
        available_releases: vec![],
    })
    .unwrap();
    let values: Vec<&str> = items.iter().map(|o| o.value.as_str()).collect();
    assert_eq!(values, vec!["21", "17", "11", "8"]);
    assert_eq!(items[1].label, "JDK 17 (LTS)");
    assert!(items[1].default);
}

#[test]
fn node_release_filters() {
    let releases = vec![
        NodeRelease { version: "v23.0.0-rc.1".into(), lts: LtsField::Bool(false), files: vec!["win-x64-msi".into()] },
        NodeRelease { version: "v22.3.0".into(), lts: LtsField::Null, files: vec!["win-x64-msi".into()] },
        NodeRelease { version: "v22.12.0".into(), lts: LtsField::Other, files: vec!["win-x64-msi".into()] },
    ];
    let items = nodejs::parse_releases(releases, "src");
    let v22 = items.iter().find(|o| o.value == "22.3.0").unwrap();
    assert!(!v22.lts);
    assert_eq!(v22.label, "v22.3.0");
    assert!(!items.iter().any(|o| o.value.contains('-')));
    let jod = items.iter().find(|o| o.value == "22.12.0").unwrap();
    assert!(jod.lts);
    assert_eq!(jod.source, "src");
    assert_eq!(items[0].value, "22.12.0");
    let classic = classic_lts_options();
    assert_eq!(classic[1].source, "Node.js Iron LTS");
    assert_eq!(classic[1].label, "v20.19.0 (LTS)");
}

#[test]
fn node_attempts_and_failure_message() {
    let sources = node_index_sources();
    assert_eq!(sources[2].1, "Node 官方索引");
    let mut notes: Vec<String> = Vec::new();
    assert!(node_attempt(&mut notes, "A", Ok(vec![])).is_none());
    assert!(node_attempt(&mut notes, "B", Err(String::from("timeout"))).is_none());
    let got = node_attempt(&mut notes, "C", Ok(vec![opt("1")])).unwrap();
    assert_eq!(got.len(), 1);
    assert_eq!(notes.len(), 2);
    assert_eq!(
        node_load_error(&notes),
        "实时获取 Node.js 版本失败: A: 未解析到可用 Windows x64 MSI 版本; B: timeout"
    );
    assert_eq!(node_load_error(&Vec::new()), "实时获取 Node.js 版本失败: ");
}

#[test]
fn mysql_catalog_from_listings() {
    let sources = catalog_sources();
    assert_eq!(sources.len(), 4);
    assert_eq!(sources[0].0, "https://mirrors.aliyun.com/mysql/MySQL-8.0/");
    assert_eq!(sources[3].0, "https://mirrors.huaweicloud.com/mysql/Downloads/MySQL-5.7/");
    let items = mysql::load_from_listings(vec![
        (String::from("A"), Err(String::from("down"))),
        (String::from("B"), Ok(vec![mysql_option("8.0.40", "m"), mysql_option("8.0.36", "m")])),
    ])
    .unwrap();
    let values: Vec<&str> = items.iter().map(|o| o.value.as_str()).collect();
    assert_eq!(values, vec!["8.0.40", "8.0.36", "5.7.44", "5.7.38"]);
    assert!(items[1].default && items[1].source == "m");
}

#[test]
fn mysql_catalog_fails_when_no_mirror_lists_a_version() {
    let err = mysql::load_from_listings(vec![
        (String::from("阿里云 MySQL 镜像"), Err(String::from("timeout"))),
        (String::from("华为云 MySQL 镜像"), Ok(vec![])),
    ])
    .err().unwrap();
    assert_eq!(
        err,
        "实时获取 MySQL 版本失败: 阿里云 MySQL 镜像: timeout; 华为云 MySQL 镜像: 未解析到 Windows ZIP 版本"
    );
    assert_eq!(mysql::load_from_listings(vec![]).err().unwrap(), "实时获取 MySQL 版本失败: ");
}

#[test]
fn tomcat_listing_rules() {
    assert_eq!(tomcat_archive_url(9), "https://archive.apache.org/dist/tomcat/tomcat-9/");
    let html = r#"<a href="v8.0.53/">x</a><a href="v8.5.99/">x</a><a href="v9.0.1/">x</a>"#;
    let items = parse_directory_listing(html, 8);
    assert_eq!(items.len(), 1);
    assert_eq!(items[0].value, "8.5.99");
    assert_eq!(items[0].label, "Tomcat 8.5.99 (LTS)");
    assert!(is_stable("10.1.39"));
    assert!(!is_stable("11.0.0-M1"));
    assert_eq!(tomcat_label("7.0.1"), "Tomcat 7.0.1 (EOL)");
    assert_eq!(tomcat_label("11.0.6"), "Tomcat 11.0.6");
}

#[test]
fn tomcat_catalog_assembly() {
    assert_eq!(
        tomcat::load_from_listings(vec![(String::from("Tomcat 9"), Err(String::from("x")))]).err().unwrap(),
        "实时获取 Tomcat 版本失败: Tomcat 9: x"
    );
    assert_eq!(
        tomcat::load_from_listings(vec![(String::from("Tomcat 8"), Ok(vec![]))]).err().unwrap(),
        "实时获取 Tomcat 版本失败: Tomcat 8: 未解析到可用版本"
    );
    let listed = parse_directory_listing(r#"<a href="v10.1.40/">"#, 10);
    let items = tomcat::load_from_listings(vec![
        (String::from("Tomcat 10"), Ok(listed)),
        (String::from("Tomcat 9"), Err(String::from("x"))),
    ])
    .unwrap();
    let values: Vec<&str> = items.iter().map(|o| o.value.as_str()).collect();
    assert_eq!(values, vec!["11.0.6", "10.1.40", "10.1.39", "9.0.102", "8.5.100", "7.0.109"]);
    assert!(items.len() <= TOMCAT_MAX_OPTIONS);
    assert!(items.iter().any(|o| o.value == DEFAULT_TOMCAT && o.default));
    assert_eq!(fallback_versions().len(), 5);
}

#[test]
fn options_from_captured_versions() {
    let v = vec![String::from("3.9.6"), String::from("3.9.9-rc"), String::from("3.8.8")];
    let m = maven_options_from(&v);
    let values: Vec<&str> = m.iter().map(|o| o.value.as_str()).collect();
    assert_eq!(values, vec!["3.9.6", "3.8.8"]);
    let y = mysql_options_from(&vec![String::from("5.7.44"), String::from("8.0.36"), String::from("8.0.36")], "s");
    let values: Vec<&str> = y.iter().map(|o| o.value.as_str()).collect();
    assert_eq!(values, vec!["8.0.36", "5.7.44"]);
    let t = tomcat_options_from(&vec![String::from("8.0.1"), String::from("8.5.2")], 8);
    assert_eq!(t.len(), 1);
    assert_eq!(t[0].label, "Tomcat 8.5.2 (LTS)");
}
