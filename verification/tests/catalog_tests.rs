use devenv_installer::version_catalog::jdk::{parse_releases, AdoptiumReleases};
use devenv_installer::version_catalog::maven::parse_metadata;
use devenv_installer::version_catalog::mysql::{mysql_option, parse_html, required_mysql_options};
use devenv_installer::version_catalog::nodejs::{self, LtsField, NodeRelease};
use devenv_installer::version_catalog::options::{
    limit_keep_default, limit_keep_values, mark_default, option,
};
use devenv_installer::version_catalog::tomcat::{fallback_versions, parse_directory_listing};
use devenv_installer::version_policy::{
    mysql_required_values, node_required_values, DEFAULT_MYSQL, DEFAULT_TOMCAT, JDK_MAX_OPTIONS,
    MYSQL_MAX_OPTIONS, NODE_MAX_OPTIONS,
};

#[test]
fn marks_lts_and_default() {
    let items = parse_releases(AdoptiumReleases {
        available_lts_releases: vec![17, 21, 25],
        available_releases: vec![16, 17, 21, 25, 26],
    });
    assert!(items.iter().any(|item| item.value == "17" && item.default));
    assert!(items.iter().any(|item| item.value == "21" && item.lts));
    assert!(items.iter().any(|item| item.value == "8" && item.lts));
    assert!(!items.iter().any(|item| item.value == "7"));
}

#[test]
fn keeps_classic_jdks_when_truncating() {
    let items = parse_releases(AdoptiumReleases {
        available_lts_releases: vec![17, 21, 25],
        available_releases: (8..40).collect(),
    });

    assert_eq!(items.len(), JDK_MAX_OPTIONS);
    assert!(items.iter().any(|item| item.value == "8"));
    assert!(items.iter().any(|item| item.value == "11"));
    assert!(items.iter().any(|item| item.value == "17" && item.default));
    assert!(items.iter().any(|item| item.value == "21"));
}

#[test]
fn filters_prerelease_and_maven4() {
    let xml = r#"
          <versions>
            <version>3.9.6</version>
            <version>3.9.9</version>
            <version>4.0.0-rc-1</version>
            <version>4.0.0</version>
            <version>3.9.10-alpha</version>
          </versions>
        "#;
    let items = parse_metadata(xml);
    assert_eq!(items[0].value, "3.9.9");
    assert!(items
        .iter()
        .any(|item| item.value == "3.9.6" && item.default));
    assert!(!items.iter().any(|item| item.value.starts_with('4')));
}

#[test]
fn keeps_default_maven_when_truncating() {
    let mut xml = String::from("<versions>");
    for patch in 7..30 {
        xml.push_str(&format!("<version>3.9.{patch}</version>"));
    }
    xml.push_str("<version>3.9.6</version></versions>");

    let items = parse_metadata(&xml);

    assert_eq!(items.len(), 16);
    assert!(items
        .iter()
        .any(|item| item.value == "3.9.6" && item.default));
}

#[test]
fn limit_keeps_project_default_version() {
    let items = ["24.1.0", "22.1.0", "20.19.0"]
        .into_iter()
        .map(|value| option(value, value.to_string(), false, false, "test"))
        .collect::<Vec<_>>();

    let limited = limit_keep_default(items, 2, "20.19.0");

    assert_eq!(limited.len(), 2);
    assert!(limited.iter().any(|item| item.value == "20.19.0"));
}

#[test]
fn keeps_mysql_80_and_57_winx64_zip() {
    let html = r#"
          mysql-8.0.36-winx64.zip
          mysql-8.0.37-winx64.zip
          mysql-8.4.0-winx64.zip
          mysql-5.7.38-winx64.zip
          mysql-5.6.51-winx64.zip
          mysql-8.0.37-winx64-debug-test.zip
        "#;
    let items = parse_html(html, "test");
    assert!(items.iter().any(|item| item.value == "8.0.37"));
    assert!(items.iter().any(|item| item.value == "8.0.36"));
    assert!(items.iter().any(|item| item.value == "5.7.38"));
    assert!(!items.iter().any(|item| item.value.starts_with("8.4")));
    assert!(!items.iter().any(|item| item.value.starts_with("5.6")));
}

#[test]
fn marks_default_and_keeps_mysql_5_when_limiting() {
    let items = (20..45)
        .map(|patch| {
            let value = format!("8.0.{patch}");
            mysql_option(&value, "test")
        })
        .chain(required_mysql_options())
        .collect::<Vec<_>>();

    let required = mysql_required_values();
    let items = mark_default(
        limit_keep_values(items, MYSQL_MAX_OPTIONS, required.as_slice()),
        DEFAULT_MYSQL,
    );

    assert_eq!(items.len(), MYSQL_MAX_OPTIONS);
    assert!(items
        .iter()
        .any(|item| item.value == DEFAULT_MYSQL && item.default));
    assert!(items.iter().any(|item| item.value == "5.7.44"));
    assert!(items.iter().any(|item| item.value == "5.7.38"));
}

fn release(version: &str, lts: LtsField, files: &[&str]) -> NodeRelease {
    NodeRelease {
        version: version.to_string(),
        lts,
        files: files.iter().map(|f| f.to_string()).collect(),
    }
}

#[test]
fn keeps_lts_before_current_and_requires_windows_msi() {
    let releases = vec![
        release("v26.0.0", LtsField::Bool(false), &["win-x64-msi"]),
        release("v24.11.1", LtsField::Text("Krypton".into()), &["win-x64-msi"]),
        release("v20.19.0", LtsField::Text("Iron".into()), &["src"]),
    ];
    let items = nodejs::parse_releases(releases, "test");
    assert_eq!(items[0].value, "24.11.1");
    assert!(items.iter().any(|item| item.value == "24.11.1" && item.lts));
    assert!(items.iter().any(|item| item.value == "26.0.0" && !item.lts));
}

#[test]
fn keeps_default_node_when_truncating() {
    let mut releases = (0..NODE_MAX_OPTIONS + 3)
        .map(|index| {
            release(
                &format!("v24.{index}.0"),
                LtsField::Text("Krypton".into()),
                &["win-x64-msi"],
            )
        })
        .collect::<Vec<_>>();
    releases.push(release("v20.19.0", LtsField::Text("Iron".into()), &["win-x64-msi"]));

    let items = nodejs::parse_releases(releases, "test");

    assert_eq!(items.len(), NODE_MAX_OPTIONS);
    assert!(items
        .iter()
        .any(|item| item.value == "20.19.0" && item.default));
}

#[test]
fn keeps_classic_lts_majors_when_limiting() {
    let releases = (0..NODE_MAX_OPTIONS + 12)
        .map(|index| {
            release(
                &format!("v24.{index}.0"),
                LtsField::Text("Krypton".into()),
                &["win-x64-msi"],
            )
        })
        .collect::<Vec<_>>();

    let items = nodejs::parse_releases(releases, "test");

    for required in node_required_values() {
        assert!(items.iter().any(|item| item.value == *required));
    }
}

#[test]
fn parses_tomcat9_versions_from_html() {
    let html = r#"
            <a href="v9.0.100/">v9.0.100/</a>
            <a href="v9.0.102/">v9.0.102/</a>
            <a href="v9.0.99/">v9.0.99/</a>
        "#;
    let items = parse_directory_listing(html, 9);
    assert_eq!(items.len(), 3);
    assert!(items.iter().any(|i| i.value == "9.0.102"));
}

#[test]
fn fallback_contains_default_tomcat() {
    let items = fallback_versions();
    assert!(items.iter().any(|i| i.value == DEFAULT_TOMCAT && i.default));
}
