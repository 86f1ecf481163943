use devenv_installer::install::conflict::{
    msi_uninstall_args, remove_entries_containing, uninstall_key_paths, uninstall_node_msi,
    RegistryRoot,
};
use devenv_installer::install::mysql::{configure_env_vars, mysql_done_message};
use devenv_installer::install::plan::{install_plan, plan_run, step_next, InstallStep, REDIS_ZIP};
use devenv_installer::install::workflow::{rollback, PlannedTask, RollbackAction};
use devenv_installer::system::path_entry::{append_entry, normalize_entry, remove_entry};
use devenv_installer::types::InstallConfig;

fn task(name: &'static str, version: &str, dry_run: bool) -> PlannedTask {
    PlannedTask { name, version: version.to_string(), dry_run }
}

#[test]
fn node_plan_clears_installs_and_writes_env_in_order() {
    let steps = install_plan(&task("nodejs", "20.19.0", false), r"D:\dev");
    assert_eq!(steps.len(), 11);
    assert!(matches!(steps[0], InstallStep::Cleanup("nodejs")));
    assert!(matches!(&steps[2], InstallStep::Download("nodejs", v) if v == "20.19.0"));
    assert!(matches!(&steps[4], InstallStep::InstallMsi(d) if d == r"D:\dev\nodejs"));
    assert!(matches!(&steps[6], InstallStep::SetEnv("NODE_HOME", d) if d == r"D:\dev\nodejs"));
    assert!(matches!(&steps[7], InstallStep::AppendPath(d) if d == r"D:\dev\nodejs"));
    assert!(matches!(&steps[10], InstallStep::Done(m) if m == "Node.js v20.19.0 安装完成"));
}

#[test]
fn failed_writes_end_the_install_but_best_effort_steps_do_not() {
    let set = InstallStep::SetEnv("NODE_HOME", String::from("x"));
    assert_eq!(step_next(&set, Err(String::from("denied"))), Some(String::from("denied")));
    assert_eq!(step_next(&set, Ok(())), None);
    let npm = InstallStep::NpmMirror(String::from("x"));
    assert_eq!(step_next(&npm, Err(String::from("no npm"))), None);
}

#[test]
fn dry_runs_only_download_or_check() {
    for name in ["nodejs", "jdk", "maven", "mysql", "tomcat", "idea", "navicat"] {
        let steps = install_plan(&task(name, "1.0", true), r"D:\dev");
        assert!(steps.iter().all(|s| matches!(
            s,
            InstallStep::Status(..) | InstallStep::Download(..) | InstallStep::Done(..)
        )));
    }
    let redis = install_plan(&task("redis", "3.2.100", true), r"D:\dev");
    assert!(redis.iter().any(|s| matches!(s, InstallStep::CheckBundledZip(f) if *f == REDIS_ZIP)));
    assert!(!redis.iter().any(|s| matches!(s, InstallStep::Download(..))));
}

#[test]
fn mysql_plan_uses_the_version_service_and_env_order() {
    let steps = install_plan(&task("mysql", "5.7.44", false), r"D:\dev");
    assert_eq!(steps.len(), 16);
    assert!(matches!(steps[1], InstallStep::CheckInstallPath));
    assert!(matches!(&steps[10], InstallStep::RegisterService(h, "MySQL57") if h == r"D:\dev\mysql"));
    assert!(matches!(&steps[13], InstallStep::SetEnv("MYSQL_HOME", h) if h == r"D:\dev\mysql"));
    assert!(matches!(&steps[14], InstallStep::AppendPath(p) if p == r"D:\dev\mysql\bin"));
    let env = configure_env_vars(r"D:\m");
    assert!(matches!(&env[0], InstallStep::SetEnv("MYSQL_HOME", h) if h == r"D:\m"));
    assert!(matches!(&env[1], InstallStep::AppendPath(p) if p == r"D:\m\bin"));
    assert_eq!(mysql_done_message("8.0.36", 3307), "MySQL 8.0.36 安装完成 (端口: 3307)");
}

#[test]
fn other_plans() {
    let jdk = install_plan(&task("jdk", "17.0.13", false), r"D:\dev");
    assert!(matches!(&jdk[4], InstallStep::Extract("jdk", n) if n == "jdk17"));
    assert!(matches!(&jdk[7], InstallStep::AppendPath(p) if p == r"D:\dev\jdk17\bin"));
    let tomcat = install_plan(&task("tomcat", "9.0.102", false), r"D:\dev");
    assert!(matches!(&tomcat[5], InstallStep::SetEnv("CATALINA_HOME", t) if t == r"D:\dev\apache-tomcat-9.0.102"));
    let idea = install_plan(&task("idea", "2023.3.8", false), r"D:\dev");
    assert!(matches!(idea[2], InstallStep::DeliverInstaller("IDEA")));
    assert!(install_plan(&task("other", "1", false), r"D:\dev").is_empty());
}

fn config(dry_run: bool) -> InstallConfig {
    InstallConfig {
        install_root: String::from(r"D:\dev"),
        mysql_password: String::new(),
        install_nodejs: true,
        install_jdk: false,
        install_maven: false,
        install_mysql: false,
        install_tomcat: false,
        install_idea: false,
        install_navicat: false,
        install_redis: true,
        dry_run,
        node_version: String::from("20.19.0"),
        jdk_version: String::new(),
        maven_version: String::new(),
        mysql_version: String::new(),
        tomcat_version: String::new(),
    }
}

#[test]
fn a_dry_run_keeps_its_scratch_directory() {
    let dry = plan_run(&config(true), false);
    assert!(!dry.remove_temp && !dry.elevation_notice);
    assert!(dry.tasks.iter().all(|t| t.dry_run));
    assert_eq!(dry.temp_dir, r"D:\dev\_temp");
    let real = plan_run(&config(false), false);
    assert!(real.remove_temp && real.elevation_notice);
}

#[test]
fn only_the_first_node_product_is_uninstalled() {
    let products = vec![
        (String::from("Python"), String::from("MsiExec.exe /X{P}")),
        (String::from("Node.js"), String::from("node-uninstall.exe")),
        (String::from("Node.js 18"), String::from("MsiExec.exe /X{A}")),
        (String::from("node.js 20"), String::from("MsiExec.exe /X{B}")),
    ];
    assert_eq!(
        uninstall_node_msi(&products),
        Some((String::from("Node.js 18"), String::from("{A}")))
    );
    assert_eq!(uninstall_node_msi(&products[..2].to_vec()), None);
    assert_eq!(msi_uninstall_args("{A}"), vec!["/x", "{A}", "/qn"]);
    let keys = uninstall_key_paths();
    assert_eq!(keys[1].0, RegistryRoot::LocalMachine);
    assert_eq!(keys[2].0, RegistryRoot::CurrentUser);
}

#[test]
fn mysql_rollback_clears_both_services() {
    let (actions, labels) = rollback(&vec![String::from("mysql")], r"D:\dev");
    assert_eq!(labels, vec!["MySQL"]);
    assert!(actions.iter().any(|a| matches!(a, RollbackAction::StopService("MySQL57"))));
    assert!(actions.iter().any(|a| matches!(a, RollbackAction::DeleteService("MySQL80"))));
}

#[test]
fn append_then_remove_equals_remove() {
    let path = r"C:\A;;D:\B\";
    let n = normalize_entry(r"E:\New");
    assert_eq!(remove_entry(&append_entry(path, r"E:\New"), &n), remove_entry(path, &n));
}

#[test]
fn a_second_removal_by_substring_finds_nothing() {
    let mut path = String::from(r"C:\Oracle\Java\javapath;D:\jdk\bin;c:\oracle\java\JAVAPATH\");
    for entry in remove_entries_containing(&path.clone(), r"oracle\java\javapath") {
        path = remove_entry(&path, &normalize_entry(&entry));
    }
    assert_eq!(path, r"D:\jdk\bin");
    assert!(remove_entries_containing(&path, r"oracle\java\javapath").is_empty());
}
