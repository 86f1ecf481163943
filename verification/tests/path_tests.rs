use devenv_installer::system::env_config::{
    path_after_append, remove_from_path, set_system_env, setx_path_after_append, EnvNext, EnvTarget,
};
use devenv_installer::system::path_entry::{
    append_entry, normalize_entry, path_contains, remove_entry,
};

#[test]
fn path_contains_ignores_case_trailing_backslash_and_empty_pieces() {
    let path = r"C:\Windows;;D:\Tools\Node\;E:\bin";
    assert!(path_contains(path, r"d:\tools\node"));
    assert!(path_contains(path, r"e:\bin"));
    assert!(!path_contains(path, r"d:\tools"));
    assert!(!path_contains(path, ""));
    assert!(!path_contains("", r"c:\windows"));
}

#[test]
fn normalize_entry_drops_trailing_backslashes_and_lowercases() {
    assert_eq!(normalize_entry(r"D:\Dev\JDK17\\"), r"d:\dev\jdk17");
    assert_eq!(normalize_entry("ÄB"), "äb");
}

#[test]
fn append_entry_inserts_separator_only_when_needed() {
    assert_eq!(append_entry("", r"D:\a"), r"D:\a");
    assert_eq!(append_entry(r"C:\x;", r"D:\a"), r"C:\x;D:\a");
    assert_eq!(append_entry(r"C:\x", r"D:\a"), r"C:\x;D:\a");
}

#[test]
fn remove_entry_drops_matching_and_empty_entries() {
    let path = r"C:\A;;D:\Node\;E:\B;d:\node";
    assert_eq!(remove_entry(path, r"d:\node"), r"C:\A;E:\B");
    assert_eq!(remove_entry(r"C:\A;;E:\B", r"x"), r"C:\A;E:\B");
    assert_eq!(remove_entry("", r"x"), "");
}

#[test]
fn append_then_contains() {
    let updated = append_entry(r"C:\A;D:\B", r"E:\New\Bin\");
    assert!(path_contains(&updated, &normalize_entry(r"E:\New\Bin\")));
}

#[test]
fn remove_then_not_contains_and_idempotent() {
    let path = r"C:\A;D:\Node;D:\NODE\;E:\B";
    let once = remove_entry(path, r"d:\node");
    assert!(!path_contains(&once, r"d:\node"));
    assert_eq!(remove_entry(&once, r"d:\node"), once);
}

#[test]
fn set_system_env_falls_back_machine_user_setx() {
    assert_eq!(set_system_env(EnvTarget::Machine, true), EnvNext::BroadcastOk);
    assert_eq!(set_system_env(EnvTarget::Machine, false), EnvNext::Try(EnvTarget::User));
    assert_eq!(set_system_env(EnvTarget::User, false), EnvNext::Try(EnvTarget::Setx));
    assert_eq!(set_system_env(EnvTarget::Setx, false), EnvNext::Fail);
    assert_eq!(set_system_env(EnvTarget::Setx, true), EnvNext::BroadcastOk);
}

#[test]
fn path_after_append_skips_present_entries() {
    assert_eq!(path_after_append(r"C:\A;D:\Node\", r"d:\node"), None);
    assert_eq!(
        path_after_append(r"C:\A", r"D:\Node"),
        Some(String::from(r"C:\A;D:\Node"))
    );
    assert_eq!(path_after_append("", r"D:\Node"), Some(String::from(r"D:\Node")));
}

#[test]
fn setx_path_always_adds_separator() {
    assert_eq!(
        setx_path_after_append(r"C:\A;", r"D:\Node"),
        Some(String::from(r"C:\A;;D:\Node"))
    );
    assert_eq!(setx_path_after_append(r"C:\A;D:\Node", r"D:\NODE"), None);
}

#[test]
fn remove_from_path_reports_only_changes() {
    assert_eq!(remove_from_path(r"C:\A;E:\B", r"D:\Node"), None);
    assert_eq!(
        remove_from_path(r"C:\A;D:\Node;E:\B", r"D:\NODE\"),
        Some(String::from(r"C:\A;E:\B"))
    );
    // Removing nothing but dropping empty pieces still changes the text.
    assert_eq!(remove_from_path(r"C:\A;;E:\B", r"D:\Node"), Some(String::from(r"C:\A;E:\B")));
}
