use devenv_installer::install::components::{
    extract_dir, extracted_source, install_target, jdk_target_name,
    msi_install_args, msi_install_result, node_install_dir, settings_xml,
    settings_xml_path,
};
use devenv_installer::install::conflict::{
    keeps_entry, stop_processes_script, exe_candidates, extract_msi_product_code, find_install_roots_from_path,
    find_path_entries_for_exe, is_safe_to_delete, node_uninstall_code, read_env_var,
    remove_entries, remove_entries_containing, remove_path_entries_containing,
    remove_path_entries_for_exe, resolve_conflicts, CleanupStep,
};
use devenv_installer::install::mysql::{
    root_password_sql, safe_mode_password_sql, start_failure, start_retry_message,
    configure_env_vars, initialization_result, my_ini_content, my_ini_path, registration_result,
    select_port, service_name_for_version, utf8_command_line, validate_install_path,
};
use devenv_installer::install::workflow::{
    build_task_list, cancellation_summary, cancelled_task, check_cancel, done_event,
    needs_elevation_notice, record_install_result, rollback, status_event, task_failure, temp_dir,
    RollbackAction,
};
use devenv_installer::types::{InstallConfig, InstallResult};

#[test]
fn scan_candidates_and_selection() {
    let path = r"C:\A\; ;D:\Node;;E:\B";
    let c = exe_candidates(path, "node.exe");
    assert_eq!(c, vec![r"C:\A\node.exe", r"D:\Node\node.exe", r"E:\B\node.exe"]);
    let found = find_path_entries_for_exe(path, &vec![false, true, true]);
    assert_eq!(found, vec![r"D:\Node", r"E:\B"]);
}

#[test]
fn install_roots_keep_existing_dirs() {
    let dirs = vec![
        Some(String::from(r"D:\dev\jdk17")),
        Some(String::from(r"C:\jdk")),
        None,
        Some(String::from(r"D:\dev\jdk21")),
    ];
    let roots = find_install_roots_from_path(&dirs, &vec![true, true, true, false]);
    assert_eq!(roots, vec![r"D:\dev\jdk17", r"C:\jdk"]);
}

#[test]
fn read_env_var_takes_first_match() {
    let vars = vec![
        (String::from("PATH"), String::from("x")),
        (String::from("JAVA_HOME"), String::from(r"D:\jdk17")),
        (String::from("JAVA_HOME"), String::from(r"D:\other")),
    ];
    assert_eq!(read_env_var(&vars, "JAVA_HOME"), Some(String::from(r"D:\jdk17")));
    assert_eq!(read_env_var(&vars, "java_home"), None);
}

#[test]
fn remove_entries_keeps_excluded_dir() {
    let entries = vec![String::from(r"D:\Node\"), String::from(r"C:\Old\node")];
    assert_eq!(remove_entries(&entries, Some(r"d:\node")), vec![r"C:\Old\node"]);
    assert_eq!(remove_entries(&entries, None), entries);
    let path = r"D:\Node;C:\Old\node";
    assert_eq!(
        remove_path_entries_for_exe(path, &vec![true, true], Some(r"D:\NODE")),
        vec![r"C:\Old\node"]
    );
}

#[test]
fn entries_containing_ignore_case() {
    let path = r"C:\Program Files\Common Files\Oracle\Java\javapath;D:\jdk\bin";
    let hits = remove_entries_containing(path, r"oracle\java\JAVAPATH");
    assert_eq!(hits, vec![r"C:\Program Files\Common Files\Oracle\Java\javapath"]);
    assert_eq!(remove_path_entries_containing(path, "nothing"), Vec::<String>::new());
}

#[test]
fn safe_to_delete_rules() {
    assert!(is_safe_to_delete(r"D:\DevEnv\jdk17", true, true));
    assert!(!is_safe_to_delete(r"D:\DevEnv\jdk17", false, true));
    assert!(!is_safe_to_delete(r"D:\DevEnv\jdk17", true, false));
    assert!(!is_safe_to_delete(r"D:\a\b", true, true));
    assert!(!is_safe_to_delete(r"C:\Windows\System32", true, true));
    assert!(!is_safe_to_delete(r"D:\stuff/WINDOWS", true, true));
    assert!(!is_safe_to_delete(r"C:\Program Files", true, true));
    assert!(!is_safe_to_delete(r"C:\Program Files\", true, true));
    assert!(!is_safe_to_delete(r"C:\Program Files (x86)\\", true, true));
    assert!(is_safe_to_delete(r"C:\Program Files\nodejs", true, true));
    assert!(!is_safe_to_delete(r"D:\development", true, true));
    assert!(!is_safe_to_delete(r"D:\development\", true, true));
    assert!(is_safe_to_delete(r"D:\dev\jdk17x", true, true));
}

#[test]
fn msi_product_code_extraction() {
    assert_eq!(
        extract_msi_product_code("MsiExec.exe /X{1234-ABCD}"),
        Some(String::from("{1234-ABCD}"))
    );
    assert_eq!(extract_msi_product_code("MsiExec.exe /X}{"), None);
    assert_eq!(extract_msi_product_code("uninstall.exe"), None);
    assert_eq!(
        node_uninstall_code("Node.js 18", "MsiExec.exe /I{AB}"),
        Some(String::from("{AB}"))
    );
    assert_eq!(node_uninstall_code("Python 3", "MsiExec.exe /I{AB}"), None);
}

#[test]
fn cleanup_plans_per_component() {
    let jdk = resolve_conflicts("jdk");
    assert_eq!(jdk.len(), 7);
    assert!(matches!(jdk[1], CleanupStep::ScanPathEntriesForExe("java.exe")));
    assert!(matches!(jdk[2], CleanupStep::DeleteOldJdkFiles));
    assert!(matches!(jdk[3], CleanupStep::RemoveScannedEntries));
    let maven = resolve_conflicts("maven");
    assert!(matches!(maven[2], CleanupStep::RemovePathEntriesForExe("mvn.bat")));
    assert!(matches!(resolve_conflicts("nodejs")[1], CleanupStep::UninstallNodeMsi));
    assert_eq!(resolve_conflicts("mysql").len(), 4);
    assert!(resolve_conflicts("idea").is_empty());
}

#[test]
fn mysql_path_and_service_rules() {
    assert!(validate_install_path(r"D:\develop\software").is_ok());
    let err = validate_install_path(r"D:\开发").unwrap_err();
    assert!(err.starts_with(r"安装路径包含非英文字符: D:\开发"));
    assert!(err.ends_with("（如 D:\\develop\\software）"));
    assert_eq!(service_name_for_version("5.7.44"), "MySQL57");
    assert_eq!(service_name_for_version("8.0.36"), "MySQL80");
    assert_eq!(select_port(true), 3306);
    assert_eq!(select_port(false), 3307);
}

#[test]
fn my_ini_uses_forward_slashes_and_crlf() {
    let ini = my_ini_content(r"D:\dev\mysql", 3307);
    assert_eq!(
        ini,
        "[mysqld]\r\nport=3307\r\nbasedir=\"D:/dev/mysql\"\r\ndatadir=\"D:/dev/mysql/data\"\r\n\
lc-messages-dir=\"D:/dev/mysql/share\"\r\nskip-name-resolve\r\n\
max_connections=200\r\ncharacter-set-server=utf8mb4\r\ndefault-storage-engine=INNODB\r\n\r\n\
[mysql]\r\ndefault-character-set=utf8mb4\r\n\r\n[client]\r\nport=3307\r\n\
default-character-set=utf8mb4"
    );
    assert_eq!(my_ini_path(r"D:\dev\mysql"), r"D:\dev\mysql\my.ini");
}

#[test]
fn utf8_command_line_quotes_words_with_spaces() {
    let line = utf8_command_line(r"C:\My Apps\mysqld.exe", &vec!["--initialize-insecure", "--console"]);
    assert_eq!(
        line,
        "chcp 65001 >nul 2>&1 && \"C:\\My Apps\\mysqld.exe\" --initialize-insecure --console"
    );
}

#[test]
fn mysqld_answers() {
    assert!(initialization_result(true, "", "").is_ok());
    assert!(initialization_result(false, "root@localhost is created", "").is_ok());
    assert!(initialization_result(false, "", "initializing").is_ok());
    assert_eq!(
        initialization_result(false, "x", "boom"),
        Err(String::from("MySQL 初始化失败（可能原因：路径含特殊字符或缺少 VC++ 运行库）: boom"))
    );
    assert!(registration_result(false, "The service already exists!").is_ok());
    assert_eq!(
        registration_result(false, "denied"),
        Err(String::from("MySQL 服务注册失败: denied"))
    );
}

#[test]
fn node_msi_install() {
    assert_eq!(node_install_dir(r"D:\dev"), r"D:\dev\nodejs");
    assert_eq!(
        msi_install_args(r"C:\t\node.msi", r"D:\dev\nodejs"),
        vec!["/i", r"C:\t\node.msi", "/qn", "/norestart", r"INSTALLDIR=D:\dev\nodejs", "ADDLOCAL=ALL"]
    );
    assert!(msi_install_result(0, "").is_ok());
    assert!(msi_install_result(3010, "").is_ok());
    assert_eq!(
        msi_install_result(1603, "fatal"),
        Err(String::from("Node.js MSI 安装失败 (exit 1603): fatal"))
    );
    assert_eq!(
        msi_install_result(-1, ""),
        Err(String::from("Node.js MSI 安装失败 (exit -1): "))
    );
}

#[test]
fn archive_placement() {
    assert_eq!(extract_dir(r"D:\dev", "jdk"), r"D:\dev\_jdk_extract");
    assert_eq!(install_target(r"D:\dev", "jdk17"), r"D:\dev\jdk17");
    assert_eq!(jdk_target_name("17.0.13"), "jdk17");
    assert_eq!(
        extracted_source("X", r"X\top", true, Some(String::from("Y")), true),
        Ok(String::from(r"X\top"))
    );
    assert_eq!(
        extracted_source("X", r"X\top", false, Some(String::from("Y")), true),
        Ok(String::from("X"))
    );
    assert_eq!(
        extracted_source("X", r"X\top", false, Some(String::from("Y")), false),
        Ok(String::from("Y"))
    );
    assert_eq!(extracted_source("X", r"X\top", false, None, true), Ok(String::from("X")));
    assert_eq!(
        extracted_source("X", r"X\top", false, None, false),
        Err(String::from("解压目录 X 中未找到有效内容"))
    );
}

#[test]
fn maven_settings() {
    let xml = settings_xml(r"D:\dev\maven");
    assert!(xml.contains(r"<localRepository>D:\dev\maven\mvn_repo</localRepository>"));
    assert!(xml.starts_with("<?xml version=\"1.0\" encoding=\"UTF-8\"?>\n<settings"));
    assert!(xml.contains("<url>https://maven.aliyun.com/repository/public</url>"));
    assert!(xml.ends_with("</settings>"));
    assert_eq!(settings_xml_path(r"D:\m"), r"D:\m\conf\settings.xml");
}

fn config(dry_run: bool) -> InstallConfig {
    InstallConfig {
        install_root: String::from(r"D:\dev"),
        mysql_password: String::from("pw"),
        install_nodejs: true,
        install_jdk: false,
        install_maven: true,
        install_mysql: false,
        install_tomcat: false,
        install_idea: true,
        install_navicat: false,
        install_redis: true,
        dry_run,
        node_version: String::from("20.19.0"),
        jdk_version: String::from("17"),
        maven_version: String::from("3.9.6"),
        mysql_version: String::from("8.0.36"),
        tomcat_version: String::from("8.5.100"),
    }
}

#[test]
fn task_list_follows_the_selection() {
    let tasks = build_task_list(&config(true));
    let names: Vec<&str> = tasks.iter().map(|t| t.name).collect();
    assert_eq!(names, vec!["nodejs", "maven", "idea", "redis"]);
    assert_eq!(tasks[0].version, "20.19.0");
    assert_eq!(tasks[2].version, "2023.3.8");
    assert_eq!(tasks[3].version, "3.2.100");
    assert!(tasks.iter().all(|t| t.dry_run));
    assert_eq!(temp_dir(r"D:\dev"), r"D:\dev\_temp");
}

#[test]
fn results_and_events() {
    let mut results: Vec<InstallResult> = Vec::new();
    assert!(record_install_result("jdk", Ok(()), &mut results).is_none());
    let ev = record_install_result("mysql", Err(String::from("bad")), &mut results).unwrap();
    assert_eq!((ev.phase.as_str(), ev.success, ev.done), ("error", false, true));
    assert_eq!(results[0].message, "jdk 安装成功");
    assert_eq!(results[1].message, "bad");
    assert!(!results[1].success);
    let st = status_event("jdk", "config", "m");
    assert!(st.success && !st.done);
    let d = done_event("jdk", true, "ok");
    assert_eq!(d.phase, "complete");
    assert_eq!(check_cancel(true), Err(String::from("用户取消安装")));
    assert_eq!(check_cancel(false), Ok(()));
    let (e, r) = cancelled_task("maven");
    assert_eq!(e.message, "安装已取消");
    assert_eq!(r, Err(String::from("安装已取消")));
    assert_eq!(task_failure("panic"), Err(String::from("任务执行异常: panic")));
    assert!(needs_elevation_notice(false, false));
    assert!(!needs_elevation_notice(true, false));
    assert!(!needs_elevation_notice(false, true));
}

#[test]
fn cancellation_lists_completed_components() {
    let results = vec![
        InstallResult { component: "jdk".into(), success: true, message: "jdk 安装成功".into() },
        InstallResult { component: "mysql".into(), success: false, message: "安装已取消".into() },
    ];
    assert_eq!(cancellation_summary(&results), Some(vec![String::from("jdk")]));
    let first = vec![InstallResult {
        component: "jdk".into(),
        success: true,
        message: "jdk 安装成功".into(),
    }];
    assert_eq!(cancellation_summary(&first), None);
}

#[test]
fn rollback_plan_and_labels() {
    let (actions, labels) = rollback(
        &vec![String::from("nodejs"), String::from("jdk"), String::from("unknown")],
        r"D:\dev",
    );
    assert_eq!(labels, vec!["Node.js", "JDK"]);
    assert_eq!(actions.len(), 2 + 3 + 2 + 3 + 2);
    assert!(matches!(&actions[0], RollbackAction::Status(c, m) if c == "nodejs" && m == "正在回滚 nodejs..."));
    assert!(matches!(&actions[1], RollbackAction::RemovePathEntry(p) if p == r"D:\dev\nodejs"));
    assert!(matches!(&actions[7], RollbackAction::RemoveJdkDir(p) if p == r"D:\dev\jdk21"));
    assert!(matches!(&actions[11], RollbackAction::Done(c, m) if c == "unknown" && m == "unknown 已回滚"));
}

#[test]
fn process_stop_script_and_kept_entries() {
    assert_eq!(
        stop_processes_script("D:/it's/jdk"),
        "Get-Process | Where-Object { $_.Path -and $_.Path.StartsWith('D:\\it''s\\jdk\\', \
[System.StringComparison]::OrdinalIgnoreCase) } | Stop-Process -Force -ErrorAction SilentlyContinue"
    );
    assert!(keeps_entry("DATA", &vec!["data"]));
    assert!(!keeps_entry("bin", &vec!["data"]));
}

#[test]
fn mysql_password_statements_and_start_messages() {
    assert_eq!(
        root_password_sql("p1"),
        "ALTER USER 'root'@'localhost' IDENTIFIED BY 'p1'; FLUSH PRIVILEGES;"
    );
    assert_eq!(
        safe_mode_password_sql("p1"),
        "FLUSH PRIVILEGES; ALTER USER 'root'@'localhost' IDENTIFIED BY 'p1';"
    );
    assert_eq!(start_retry_message(2, "  System error 1058.\r\n"), "启动服务重试 2/3: System error 1058.");
    assert!(start_failure().starts_with("MySQL 服务启动失败"));
}
