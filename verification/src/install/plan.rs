//! The steps of installing one component, in order, and how a run of them ends:
//! the caller performs each step and asks `step_next` whether to go on.

use vstd::prelude::*;
use crate::text::{concat2, concat3, owned, str_eq, split_on};
use crate::types::InstallConfig;
use crate::version_policy::{
    DEFAULT_REDIS, mysql_service_name, mysql_service_name_spec, tomcat_install_dir_name,
};
use crate::install::components::{node_install_dir, install_target, jdk_target_name};
use crate::install::mysql::configure_env_vars;
use crate::install::workflow::{
    PlannedTask, task_views, task_plan, build_task_list, temp_dir, needs_elevation_notice,
    ActionView, component_rollback, rollback_spec,
};
use crate::install::conflict::{CleanupStep, cleanup_plan};

verus! {

/// The bundled Redis archive whose presence a dry run checks.
pub const REDIS_ZIP: &'static str = "Redis-x64-3.2.100.zip";

/// One step of installing a component. Steps that change the machine are marked
/// in their comments; a dry run uses none of them.
pub enum InstallStep {
    /// Report progress in a phase ("download", "install", "config").
    Status(&'static str, String),
    /// Clear an older install of the component (changes the machine).
    Cleanup(&'static str),
    /// Refuse an install root MySQL cannot live in.
    CheckInstallPath,
    /// Download the component at a version into the scratch directory.
    Download(&'static str, String),
    /// Check that a bundled archive is present.
    CheckBundledZip(&'static str),
    /// Run the Node.js MSI silently into a directory (changes the machine).
    InstallMsi(String),
    /// Unpack the download and move it to the install root under a name (changes the machine).
    Extract(&'static str, String),
    /// Write Maven's `settings.xml` into a Maven home (changes the machine).
    WriteSettingsXml(String),
    /// Choose the port and write `my.ini` into a MySQL home (changes the machine).
    WriteMyIni(String),
    /// Warn when the Visual C++ runtime is missing.
    CheckVcRuntime,
    /// Stop and delete the MySQL services the installer manages (changes the machine).
    RemoveOldServices,
    /// Initialise the data directory of a MySQL home (changes the machine).
    InitializeDataDir(String),
    /// Register a MySQL home's server as a service (changes the machine).
    RegisterService(String, &'static str),
    /// Start a service (changes the machine).
    StartService(&'static str),
    /// Set the root password of a MySQL home's server (changes the machine).
    SetRootPassword(String, &'static str),
    /// Set an environment variable (changes the machine).
    SetEnv(&'static str, String),
    /// Add a directory to `PATH` (changes the machine).
    AppendPath(String),
    /// Point npm of a Node.js directory at the npmmirror registry (changes the machine).
    NpmMirror(String),
    /// Copy the downloaded installer into the install root and report where (changes the machine).
    DeliverInstaller(&'static str),
    /// Check that an unpacked Redis directory holds `redis-server.exe`.
    CheckServerExe(String),
    /// Report MySQL installed, with the version and the chosen port.
    MysqlDone(String),
    /// Report the component done.
    Done(String),
}

/// The model of an install step.
pub enum StepView {
    Status(Seq<char>, Seq<char>),
    Cleanup(Seq<char>),
    CheckInstallPath,
    Download(Seq<char>, Seq<char>),
    CheckBundledZip(Seq<char>),
    InstallMsi(Seq<char>),
    Extract(Seq<char>, Seq<char>),
    WriteSettingsXml(Seq<char>),
    WriteMyIni(Seq<char>),
    CheckVcRuntime,
    RemoveOldServices,
    InitializeDataDir(Seq<char>),
    RegisterService(Seq<char>, Seq<char>),
    StartService(Seq<char>),
    SetRootPassword(Seq<char>, Seq<char>),
    SetEnv(Seq<char>, Seq<char>),
    AppendPath(Seq<char>),
    NpmMirror(Seq<char>),
    DeliverInstaller(Seq<char>),
    CheckServerExe(Seq<char>),
    MysqlDone(Seq<char>),
    Done(Seq<char>),
}

impl View for InstallStep {
    type V = StepView;

    open spec fn view(&self) -> StepView {
        match self {
            InstallStep::Status(p, m) => StepView::Status(p@, m@),
            InstallStep::Cleanup(c) => StepView::Cleanup(c@),
            InstallStep::CheckInstallPath => StepView::CheckInstallPath,
            InstallStep::Download(c, v) => StepView::Download(c@, v@),
            InstallStep::CheckBundledZip(f) => StepView::CheckBundledZip(f@),
            InstallStep::InstallMsi(d) => StepView::InstallMsi(d@),
            InstallStep::Extract(s, t) => StepView::Extract(s@, t@),
            InstallStep::WriteSettingsXml(h) => StepView::WriteSettingsXml(h@),
            InstallStep::WriteMyIni(h) => StepView::WriteMyIni(h@),
            InstallStep::CheckVcRuntime => StepView::CheckVcRuntime,
            InstallStep::RemoveOldServices => StepView::RemoveOldServices,
            InstallStep::InitializeDataDir(h) => StepView::InitializeDataDir(h@),
            InstallStep::RegisterService(h, s) => StepView::RegisterService(h@, s@),
            InstallStep::StartService(s) => StepView::StartService(s@),
            InstallStep::SetRootPassword(h, s) => StepView::SetRootPassword(h@, s@),
            InstallStep::SetEnv(k, v) => StepView::SetEnv(k@, v@),
            InstallStep::AppendPath(p) => StepView::AppendPath(p@),
            InstallStep::NpmMirror(d) => StepView::NpmMirror(d@),
            InstallStep::DeliverInstaller(s) => StepView::DeliverInstaller(s@),
            InstallStep::CheckServerExe(t) => StepView::CheckServerExe(t@),
            InstallStep::MysqlDone(v) => StepView::MysqlDone(v@),
            InstallStep::Done(m) => StepView::Done(m@),
        }
    }
}

/// The models of a list of steps.
pub open spec fn step_views(v: Seq<InstallStep>) -> Seq<StepView> {
    v.map_values(|s: InstallStep| s@)
}

/// Whether a failure of the step ends the install with its error. Progress
/// reports, the runtime warning, removing old services, setting the root
/// password and the npm mirror are best effort and never end it.
pub open spec fn fallible(s: StepView) -> bool {
    !(s is Status || s is CheckVcRuntime || s is RemoveOldServices || s is SetRootPassword
        || s is NpmMirror || s is MysqlDone || s is Done)
}

/// Whether the step leaves the machine as it was (it only reports, downloads
/// into the scratch directory, or checks).
pub open spec fn inspects_only(s: StepView) -> bool {
    s is Status || s is Download || s is CheckBundledZip || s is Done
}

/// What to do after a step: `None` to go on, `Some(e)` to end the install with
/// error `e` (a fallible step that failed).
pub fn step_next(step: &InstallStep, result: Result<(), String>) -> (r: Option<String>)
    ensures
        (fallible(step@) && result is Err) ==> r == Some(result->Err_0),
        !(fallible(step@) && result is Err) ==> r is None,
{
    let best_effort = match step {
        InstallStep::Status(..) => true,
        InstallStep::CheckVcRuntime => true,
        InstallStep::RemoveOldServices => true,
        InstallStep::SetRootPassword(..) => true,
        InstallStep::NpmMirror(..) => true,
        InstallStep::MysqlDone(..) => true,
        InstallStep::Done(..) => true,
        _ => false,
    };
    match result {
        Ok(()) => None,
        Err(e) => if best_effort {
            None
        } else {
            Some(e)
        },
    }
}

/// How a run of `steps` ends when the `i`-th step gives `results[i]`: with the
/// error of the first fallible step that failed, else with success.
pub open spec fn run_outcome(steps: Seq<StepView>, results: Seq<Result<(), Seq<char>>>) -> Result<
    (),
    Seq<char>,
>
    decreases steps.len(),
{
    if steps.len() == 0 || results.len() == 0 {
        Ok(())
    } else if fallible(steps[0]) && results[0] is Err {
        results[0]
    } else {
        run_outcome(steps.drop_first(), results.drop_first())
    }
}

/// A run ends in success only when every fallible step succeeded.
pub proof fn lemma_success_needs_every_step(steps: Seq<StepView>, results: Seq<Result<(), Seq<char>>>)
    requires
        results.len() == steps.len(),
        run_outcome(steps, results) is Ok,
    ensures
        forall|i: int| 0 <= i < steps.len() && fallible(#[trigger] steps[i]) ==> results[i] is Ok,
    decreases steps.len(),
{
    if steps.len() > 0 {
        lemma_success_needs_every_step(steps.drop_first(), results.drop_first());
        assert forall|i: int| 0 <= i < steps.len() && fallible(#[trigger] steps[i]) implies results[i] is Ok by {
            if i > 0 {
                assert(steps.drop_first()[i - 1] == steps[i]);
                assert(results.drop_first()[i - 1] == results[i]);
            }
        }
    }
}

// ---------------------------------------------------------------------------
// The plans
// ---------------------------------------------------------------------------

/// A dry run: the download is made and checked, nothing is installed; Redis,
/// which ships with the installer, only has its bundled archive checked.
pub open spec fn dry_plan(name: Seq<char>, version: Seq<char>) -> Seq<StepView> {
    if name == "redis"@ {
        seq![
            StepView::Status("download"@, "[测试模式] 正在检查 Redis 本地 ZIP..."@),
            StepView::CheckBundledZip(REDIS_ZIP@),
            StepView::Done("[测试模式] redis 本地 ZIP 验证通过"@),
        ]
    } else {
        seq![
            StepView::Status("download"@, "[测试模式] 正在下载 "@ + name + "..."@),
            StepView::Download(name, version),
            StepView::Status("config"@, "[测试模式] "@ + name + " 下载验证成功，跳过安装步骤"@),
            StepView::Done("[测试模式] "@ + name + " 下载验证通过"@),
        ]
    }
}

/// Installing Node.js: clear the old install, download the MSI, install it into
/// `<root>\nodejs`, set `NODE_HOME` and add the directory to `PATH`, point npm at
/// the mirror.
pub open spec fn node_plan(version: Seq<char>, root: Seq<char>) -> Seq<StepView> {
    let dir = root + "\\nodejs"@;
    seq![
        StepView::Cleanup("nodejs"@),
        StepView::Status("download"@, "正在下载 Node.js v"@ + version + "..."@),
        StepView::Download("nodejs"@, version),
        StepView::Status("install"@, "正在静默安装 Node.js..."@),
        StepView::InstallMsi(dir),
        StepView::Status("config"@, "正在配置 NODE_HOME 环境变量..."@),
        StepView::SetEnv("NODE_HOME"@, dir),
        StepView::AppendPath(dir),
        StepView::Status("config"@, "正在设置 npm 淘宝镜像..."@),
        StepView::NpmMirror(dir),
        StepView::Done("Node.js v"@ + version + " 安装完成"@),
    ]
}

/// Installing a JDK: clear the old install, download, unpack to `<root>\jdk<major>`,
/// set `JAVA_HOME` and add its `bin` to `PATH`.
pub open spec fn jdk_plan(version: Seq<char>, root: Seq<char>) -> Seq<StepView> {
    let name = "jdk"@ + split_on(version, seq!['.'])[0];
    let target = root + "\\"@ + name;
    seq![
        StepView::Cleanup("jdk"@),
        StepView::Status("download"@, "正在下载 JDK "@ + version + "..."@),
        StepView::Download("jdk"@, version),
        StepView::Status("install"@, "正在解压 JDK..."@),
        StepView::Extract("jdk"@, name),
        StepView::Status("config"@, "正在配置 JAVA_HOME 环境变量..."@),
        StepView::SetEnv("JAVA_HOME"@, target),
        StepView::AppendPath(target + "\\bin"@),
        StepView::Done("JDK "@ + version + " 安装完成"@),
    ]
}

/// Installing Maven: clear the old install, download, unpack to `<root>\maven`,
/// write `settings.xml`, set `MAVEN_HOME` and add its `bin` to `PATH`.
pub open spec fn maven_plan(version: Seq<char>, root: Seq<char>) -> Seq<StepView> {
    let target = root + "\\"@ + "maven"@;
    seq![
        StepView::Cleanup("maven"@),
        StepView::Status("download"@, "正在下载 Maven "@ + version + "..."@),
        StepView::Download("maven"@, version),
        StepView::Status("install"@, "正在解压 Maven..."@),
        StepView::Extract("maven"@, "maven"@),
        StepView::Status("config"@, "正在写入 settings.xml..."@),
        StepView::WriteSettingsXml(target),
        StepView::Status("config"@, "正在配置 MAVEN_HOME 环境变量..."@),
        StepView::SetEnv("MAVEN_HOME"@, target),
        StepView::AppendPath(target + "\\bin"@),
        StepView::Done("Maven "@ + version + " 安装完成"@),
    ]
}

/// Installing MySQL: clear the old install, refuse a non-ASCII root, download,
/// unpack to `<root>\mysql`, write `my.ini`, check the runtime, replace the old
/// services, initialise, register and start the version's service, set the
/// root password, then set `MYSQL_HOME` and add its `bin` to `PATH`.
pub open spec fn mysql_plan(version: Seq<char>, root: Seq<char>) -> Seq<StepView> {
    let target = root + "\\"@ + "mysql"@;
    let service = mysql_service_name_spec(version);
    seq![
        StepView::Cleanup("mysql"@),
        StepView::CheckInstallPath,
        StepView::Status("download"@, "正在下载 MySQL "@ + version + "..."@),
        StepView::Download("mysql"@, version),
        StepView::Status("install"@, "正在解压 MySQL（约 300MB，请耐心等待）..."@),
        StepView::Extract("mysql"@, "mysql"@),
        StepView::WriteMyIni(target),
        StepView::CheckVcRuntime,
        StepView::RemoveOldServices,
        StepView::InitializeDataDir(target),
        StepView::RegisterService(target, service),
        StepView::StartService(service),
        StepView::SetRootPassword(target, service),
        StepView::SetEnv("MYSQL_HOME"@, target),
        StepView::AppendPath(target + "\\bin"@),
        StepView::MysqlDone(version),
    ]
}

/// Installing Tomcat: download, unpack to `<root>\apache-tomcat-<version>`, set
/// `CATALINA_HOME`.
pub open spec fn tomcat_plan(version: Seq<char>, root: Seq<char>) -> Seq<StepView> {
    let name = "apache-tomcat-"@ + version;
    let target = root + "\\"@ + name;
    seq![
        StepView::Status("download"@, "正在下载 Apache Tomcat "@ + version + "..."@),
        StepView::Download("tomcat"@, version),
        StepView::Status("install"@, "正在解压 Tomcat..."@),
        StepView::Extract("tomcat"@, name),
        StepView::Status("config"@, "正在配置 CATALINA_HOME 环境变量..."@),
        StepView::SetEnv("CATALINA_HOME"@, target),
        StepView::Done("Tomcat "@ + version + " 已安装到 "@ + target + "，CATALINA_HOME 已配置"@),
    ]
}

/// Fetching an installer the user runs: download it and copy it into the root.
pub open spec fn tool_plan(name: Seq<char>, title: Seq<char>, short: Seq<char>, version: Seq<char>) -> Seq<
    StepView,
> {
    seq![
        StepView::Status("download"@, "正在下载 "@ + title + " "@ + version + "..."@),
        StepView::Download(name, version),
        StepView::DeliverInstaller(short),
    ]
}

/// Unpacking Redis: download, unpack to `<root>\redis`, check the server is there.
pub open spec fn redis_plan(version: Seq<char>, root: Seq<char>) -> Seq<StepView> {
    let target = root + "\\"@ + "redis"@;
    seq![
        StepView::Status("download"@, "正在下载 Redis "@ + version + "..."@),
        StepView::Download("redis"@, version),
        StepView::Status("install"@, "正在解压 Redis..."@),
        StepView::Extract("redis"@, "redis"@),
        StepView::CheckServerExe(target),
        StepView::Done("Redis 已解压到 "@ + target + "（绿色免安装，双击 redis-server.exe 启动）"@),
    ]
}

/// The steps of task `(name, version, dry)` under install root `root`.
pub open spec fn install_plan_spec(name: Seq<char>, version: Seq<char>, dry: bool, root: Seq<char>) -> Seq<
    StepView,
> {
    if dry {
        dry_plan(name, version)
    } else if name == "nodejs"@ {
        node_plan(version, root)
    } else if name == "jdk"@ {
        jdk_plan(version, root)
    } else if name == "maven"@ {
        maven_plan(version, root)
    } else if name == "mysql"@ {
        mysql_plan(version, root)
    } else if name == "tomcat"@ {
        tomcat_plan(version, root)
    } else if name == "idea"@ {
        tool_plan(name, "IntelliJ IDEA"@, "IDEA"@, version)
    } else if name == "navicat"@ {
        tool_plan(name, "Navicat Premium"@, "Navicat"@, version)
    } else if name == "redis"@ {
        redis_plan(version, root)
    } else {
        Seq::empty()
    }
}

fn status(phase: &'static str, msg: String) -> (r: InstallStep)
    ensures
        r@ == StepView::Status(phase@, msg@),
{
    InstallStep::Status(phase, msg)
}

fn dry_steps(name: &'static str, version: &str) -> (r: Vec<InstallStep>)
    ensures
        step_views(r@) == dry_plan(name@, version@),
{
    if str_eq(name, "redis") {
        let r = vec![
            status("download", owned("[测试模式] 正在检查 Redis 本地 ZIP...")),
            InstallStep::CheckBundledZip(REDIS_ZIP),
            InstallStep::Done(owned("[测试模式] redis 本地 ZIP 验证通过")),
        ];
        assert(step_views(r@) =~= dry_plan(name@, version@));
        r
    } else {
        let r = vec![
            status("download", concat3("[测试模式] 正在下载 ", name, "...")),
            InstallStep::Download(name, owned(version)),
            status("config", concat3("[测试模式] ", name, " 下载验证成功，跳过安装步骤")),
            InstallStep::Done(concat3("[测试模式] ", name, " 下载验证通过")),
        ];
        assert(step_views(r@) =~= dry_plan(name@, version@));
        r
    }
}

fn node_steps(version: &str, root: &str) -> (r: Vec<InstallStep>)
    ensures
        step_views(r@) == node_plan(version@, root@),
{
    let dir = node_install_dir(root);
    let r = vec![
        InstallStep::Cleanup("nodejs"),
        status("download", concat3("正在下载 Node.js v", version, "...")),
        InstallStep::Download("nodejs", owned(version)),
        status("install", owned("正在静默安装 Node.js...")),
        InstallStep::InstallMsi(dir.clone()),
        status("config", owned("正在配置 NODE_HOME 环境变量...")),
        InstallStep::SetEnv("NODE_HOME", dir.clone()),
        InstallStep::AppendPath(dir.clone()),
        status("config", owned("正在设置 npm 淘宝镜像...")),
        InstallStep::NpmMirror(dir),
        InstallStep::Done(concat3("Node.js v", version, " 安装完成")),
    ];
    assert(step_views(r@) =~= node_plan(version@, root@));
    r
}

fn jdk_steps(version: &str, root: &str) -> (r: Vec<InstallStep>)
    ensures
        step_views(r@) == jdk_plan(version@, root@),
{
    let name = jdk_target_name(version);
    let target = install_target(root, name.as_str());
    let r = vec![
        InstallStep::Cleanup("jdk"),
        status("download", concat3("正在下载 JDK ", version, "...")),
        InstallStep::Download("jdk", owned(version)),
        status("install", owned("正在解压 JDK...")),
        InstallStep::Extract("jdk", name),
        status("config", owned("正在配置 JAVA_HOME 环境变量...")),
        InstallStep::SetEnv("JAVA_HOME", target.clone()),
        InstallStep::AppendPath(concat2(target.as_str(), "\\bin")),
        InstallStep::Done(concat3("JDK ", version, " 安装完成")),
    ];
    assert(step_views(r@) =~= jdk_plan(version@, root@));
    r
}

fn maven_steps(version: &str, root: &str) -> (r: Vec<InstallStep>)
    ensures
        step_views(r@) == maven_plan(version@, root@),
{
    let target = install_target(root, "maven");
    let r = vec![
        InstallStep::Cleanup("maven"),
        status("download", concat3("正在下载 Maven ", version, "...")),
        InstallStep::Download("maven", owned(version)),
        status("install", owned("正在解压 Maven...")),
        InstallStep::Extract("maven", owned("maven")),
        status("config", owned("正在写入 settings.xml...")),
        InstallStep::WriteSettingsXml(target.clone()),
        status("config", owned("正在配置 MAVEN_HOME 环境变量...")),
        InstallStep::SetEnv("MAVEN_HOME", target.clone()),
        InstallStep::AppendPath(concat2(target.as_str(), "\\bin")),
        InstallStep::Done(concat3("Maven ", version, " 安装完成")),
    ];
    assert(step_views(r@) =~= maven_plan(version@, root@));
    r
}

fn mysql_steps(version: &str, root: &str) -> (r: Vec<InstallStep>)
    ensures
        step_views(r@) == mysql_plan(version@, root@),
{
    let target = install_target(root, "mysql");
    let service = mysql_service_name(version);
    let mut r = vec![
        InstallStep::Cleanup("mysql"),
        InstallStep::CheckInstallPath,
        status("download", concat3("正在下载 MySQL ", version, "...")),
        InstallStep::Download("mysql", owned(version)),
        status("install", owned("正在解压 MySQL（约 300MB，请耐心等待）...")),
        InstallStep::Extract("mysql", owned("mysql")),
        InstallStep::WriteMyIni(target.clone()),
        InstallStep::CheckVcRuntime,
        InstallStep::RemoveOldServices,
        InstallStep::InitializeDataDir(target.clone()),
        InstallStep::RegisterService(target.clone(), service),
        InstallStep::StartService(service),
        InstallStep::SetRootPassword(target.clone(), service),
    ];
    let ghost head = step_views(r@);
    let mut env = configure_env_vars(target.as_str());
    let ghost tail = step_views(env@);
    r.append(&mut env);
    r.push(InstallStep::MysqlDone(owned(version)));
    proof {
        assert(step_views(r@) =~= head + tail + seq![StepView::MysqlDone(version@)]);
    }
    assert(step_views(r@) =~= mysql_plan(version@, root@));
    r
}

fn tomcat_steps(version: &str, root: &str) -> (r: Vec<InstallStep>)
    ensures
        step_views(r@) == tomcat_plan(version@, root@),
{
    let name = tomcat_install_dir_name(version);
    let target = install_target(root, name.as_str());
    let head = concat3("Tomcat ", version, " 已安装到 ");
    let r = vec![
        status("download", concat3("正在下载 Apache Tomcat ", version, "...")),
        InstallStep::Download("tomcat", owned(version)),
        status("install", owned("正在解压 Tomcat...")),
        InstallStep::Extract("tomcat", name),
        status("config", owned("正在配置 CATALINA_HOME 环境变量...")),
        InstallStep::SetEnv("CATALINA_HOME", target.clone()),
        InstallStep::Done(concat3(head.as_str(), target.as_str(), "，CATALINA_HOME 已配置")),
    ];
    assert(step_views(r@) =~= tomcat_plan(version@, root@));
    r
}

fn tool_steps(name: &'static str, title: &str, short: &'static str, version: &str) -> (r: Vec<
    InstallStep,
>)
    ensures
        step_views(r@) == tool_plan(name@, title@, short@, version@),
{
    let head = concat3("正在下载 ", title, " ");
    let r = vec![
        status("download", concat3(head.as_str(), version, "...")),
        InstallStep::Download(name, owned(version)),
        InstallStep::DeliverInstaller(short),
    ];
    assert(step_views(r@) =~= tool_plan(name@, title@, short@, version@));
    r
}

fn redis_steps(version: &str, root: &str) -> (r: Vec<InstallStep>)
    ensures
        step_views(r@) == redis_plan(version@, root@),
{
    let target = install_target(root, "redis");
    let r = vec![
        status("download", concat3("正在下载 Redis ", version, "...")),
        InstallStep::Download("redis", owned(version)),
        status("install", owned("正在解压 Redis...")),
        InstallStep::Extract("redis", owned("redis")),
        InstallStep::CheckServerExe(target.clone()),
        InstallStep::Done(concat3("Redis 已解压到 ", target.as_str(), "（绿色免安装，双击 redis-server.exe 启动）")),
    ];
    assert(step_views(r@) =~= redis_plan(version@, root@));
    r
}

/// The steps of `task` under `install_root`, in order.
pub fn install_plan(task: &PlannedTask, install_root: &str) -> (r: Vec<InstallStep>)
    ensures
        step_views(r@) == install_plan_spec(task.name@, task.version@, task.dry_run, install_root@),
{
    let name = task.name;
    let version = task.version.as_str();
    if task.dry_run {
        dry_steps(name, version)
    } else if str_eq(name, "nodejs") {
        node_steps(version, install_root)
    } else if str_eq(name, "jdk") {
        jdk_steps(version, install_root)
    } else if str_eq(name, "maven") {
        maven_steps(version, install_root)
    } else if str_eq(name, "mysql") {
        mysql_steps(version, install_root)
    } else if str_eq(name, "tomcat") {
        tomcat_steps(version, install_root)
    } else if str_eq(name, "idea") {
        tool_steps(name, "IntelliJ IDEA", "IDEA", version)
    } else if str_eq(name, "navicat") {
        tool_steps(name, "Navicat Premium", "Navicat", version)
    } else if str_eq(name, "redis") {
        redis_steps(version, install_root)
    } else {
        let r: Vec<InstallStep> = Vec::new();
        assert(step_views(r@) =~= Seq::<StepView>::empty());
        r
    }
}

// ---------------------------------------------------------------------------
// A whole run
// ---------------------------------------------------------------------------

/// What an install run does around its tasks.
pub struct RunPlan {
    /// The scratch directory, created before the tasks.
    pub temp_dir: String,
    /// Whether to tell the user that variables go to the user's key.
    pub elevation_notice: bool,
    /// The tasks, run concurrently.
    pub tasks: Vec<PlannedTask>,
    /// Whether the scratch directory is removed after the tasks.
    pub remove_temp: bool,
}

/// The plan of a run of `config` by a process that is (or is not) elevated: the
/// scratch directory `<root>\_temp`, the notice only for a real run without
/// elevation, the configuration's tasks, and the scratch directory removed only
/// after a real run (a dry run keeps what it downloaded).
pub fn plan_run(config: &InstallConfig, elevated: bool) -> (r: RunPlan)
    ensures
        r.temp_dir@ == config.install_root@ + "\\_temp"@,
        r.elevation_notice == (!config.dry_run && !elevated),
        task_views(r.tasks@) == task_plan(*config),
        r.remove_temp == !config.dry_run,
{
    RunPlan {
        temp_dir: temp_dir(config.install_root.as_str()),
        elevation_notice: needs_elevation_notice(config.dry_run, elevated),
        tasks: build_task_list(config),
        remove_temp: !config.dry_run,
    }
}

// ---------------------------------------------------------------------------
// Laws of the plans
// ---------------------------------------------------------------------------

/// A dry run changes nothing on the machine: every step of every task of a dry
/// run only reports, downloads into the scratch directory or checks; Redis is
/// not even downloaded, only its bundled archive is checked.
pub proof fn lemma_dry_run_changes_nothing(config: InstallConfig, root: Seq<char>)
    requires
        config.dry_run,
    ensures
        forall|k: int|
            0 <= k < task_plan(config).len() ==> {
                let t = #[trigger] task_plan(config)[k];
                let steps = install_plan_spec(t.0, t.1, t.2, root);
                &&& t.2
                &&& forall|i: int| 0 <= i < steps.len() ==> inspects_only(#[trigger] steps[i])
                &&& t.0 == "redis"@ ==> forall|i: int|
                    0 <= i < steps.len() ==> !(#[trigger] steps[i] is Download)
            },
{
    lemma_plan_flags(config);
    assert forall|k: int| 0 <= k < task_plan(config).len() implies {
        let t = #[trigger] task_plan(config)[k];
        let steps = install_plan_spec(t.0, t.1, t.2, root);
        &&& t.2
        &&& forall|i: int| 0 <= i < steps.len() ==> inspects_only(#[trigger] steps[i])
        &&& t.0 == "redis"@ ==> forall|i: int| 0 <= i < steps.len() ==> !(#[trigger] steps[i] is Download)
    } by {
        let t = task_plan(config)[k];
        assert(t.2);
        let steps = install_plan_spec(t.0, t.1, t.2, root);
        assert(steps == dry_plan(t.0, t.1));
    }
}

/// Whether every task of `ts` carries dry-run flag `d`.
pub open spec fn all_flagged(ts: Seq<(Seq<char>, Seq<char>, bool)>, d: bool) -> bool {
    forall|k: int| 0 <= k < ts.len() ==> (#[trigger] ts[k]).2 == d
}

proof fn lemma_flagged_concat(a: Seq<(Seq<char>, Seq<char>, bool)>, b: Seq<(Seq<char>, Seq<char>, bool)>, d: bool)
    requires
        all_flagged(a, d),
        all_flagged(b, d),
    ensures
        all_flagged(a + b, d),
{
    assert forall|k: int| 0 <= k < (a + b).len() implies (#[trigger] (a + b)[k]).2 == d by {
        if k >= a.len() {
            assert((a + b)[k] == b[k - a.len()]);
        }
    }
}

/// Every task of a configuration carries its dry-run flag.
proof fn lemma_plan_flags(c: InstallConfig)
    ensures
        all_flagged(task_plan(c), c.dry_run),
{
    let d = c.dry_run;
    let t0 = crate::install::workflow::task_if(c.install_nodejs, "nodejs"@, c.node_version@, d);
    let t1 = crate::install::workflow::task_if(c.install_jdk, "jdk"@, c.jdk_version@, d);
    let t2 = crate::install::workflow::task_if(c.install_maven, "maven"@, c.maven_version@, d);
    let t3 = crate::install::workflow::task_if(c.install_mysql, "mysql"@, c.mysql_version@, d);
    let t4 = crate::install::workflow::task_if(c.install_tomcat, "tomcat"@, c.tomcat_version@, d);
    let t5 = crate::install::workflow::task_if(
        c.install_idea,
        "idea"@,
        crate::version_policy::DEFAULT_IDEA@,
        d,
    );
    let t6 = crate::install::workflow::task_if(
        c.install_navicat,
        "navicat"@,
        crate::version_policy::DEFAULT_NAVICAT@,
        d,
    );
    let t7 = crate::install::workflow::task_if(c.install_redis, "redis"@, DEFAULT_REDIS@, d);
    lemma_flagged_concat(t0, t1, d);
    lemma_flagged_concat(t0 + t1, t2, d);
    lemma_flagged_concat(t0 + t1 + t2, t3, d);
    lemma_flagged_concat(t0 + t1 + t2 + t3, t4, d);
    lemma_flagged_concat(t0 + t1 + t2 + t3 + t4, t5, d);
    lemma_flagged_concat(t0 + t1 + t2 + t3 + t4 + t5, t6, d);
    lemma_flagged_concat(t0 + t1 + t2 + t3 + t4 + t5 + t6, t7, d);
}

/// Installing Node.js succeeds only after its old install was cleared, the MSI
/// ran, `NODE_HOME` was written and its directory was added to `PATH`.
pub proof fn lemma_node_success_needs_cleanup_and_env(
    version: Seq<char>,
    root: Seq<char>,
    results: Seq<Result<(), Seq<char>>>,
)
    requires
        results.len() == node_plan(version, root).len(),
        run_outcome(node_plan(version, root), results) is Ok,
    ensures
        node_plan(version, root)[0] == StepView::Cleanup("nodejs"@) && results[0] is Ok,
        node_plan(version, root)[4] == StepView::InstallMsi(root + "\\nodejs"@) && results[4] is Ok,
        node_plan(version, root)[6] == StepView::SetEnv("NODE_HOME"@, root + "\\nodejs"@)
            && results[6] is Ok,
        node_plan(version, root)[7] == StepView::AppendPath(root + "\\nodejs"@) && results[7] is Ok,
{
    let steps = node_plan(version, root);
    lemma_success_needs_every_step(steps, results);
    assert(fallible(steps[0]));
    assert(fallible(steps[4]));
    assert(fallible(steps[6]));
    assert(fallible(steps[7]));
}

/// A MySQL install succeeds only if `MYSQL_HOME` was written and, after it,
/// the `bin` directory was added to `PATH`.
pub proof fn lemma_mysql_env_order(version: Seq<char>, root: Seq<char>, results: Seq<Result<(), Seq<char>>>)
    requires
        results.len() == mysql_plan(version, root).len(),
        run_outcome(mysql_plan(version, root), results) is Ok,
    ensures
        mysql_plan(version, root)[13] == StepView::SetEnv("MYSQL_HOME"@, root + "\\"@ + "mysql"@)
            && results[13] is Ok,
        mysql_plan(version, root)[14] == StepView::AppendPath(root + "\\"@ + "mysql"@ + "\\bin"@)
            && results[14] is Ok,
{
    let steps = mysql_plan(version, root);
    lemma_success_needs_every_step(steps, results);
    assert(fallible(steps[13]));
    assert(fallible(steps[14]));
}

} // verus!

verus! {

// ---------------------------------------------------------------------------
// Laws tying installs to their cleanup and rollback
// ---------------------------------------------------------------------------

/// The executable that the directory a component's install adds to `PATH`
/// holds (none for a component that adds nothing to `PATH`).
pub open spec fn path_executable(name: Seq<char>) -> Seq<char> {
    if name == "nodejs"@ {
        "node.exe"@
    } else if name == "jdk"@ {
        "java.exe"@
    } else if name == "maven"@ {
        "mvn.cmd"@
    } else if name == "mysql"@ {
        "mysql.exe"@
    } else {
        Seq::empty()
    }
}

/// Whether cleanup `steps` take out of `PATH` every entry holding executable
/// `exe`: directly, or by collecting those entries and later removing them.
pub open spec fn clears_exe_entries(steps: Seq<CleanupStep>, exe: Seq<char>) -> bool {
    exists|i: int|
        0 <= i < steps.len() && ((#[trigger] steps[i] matches CleanupStep::RemovePathEntriesForExe(e)
            && e@ == exe) || (steps[i] matches CleanupStep::ScanPathEntriesForExe(e) && e@ == exe
            && exists|j: int| i < j < steps.len() && #[trigger] steps[j] is RemoveScannedEntries))
}

/// A component whose install adds a directory to `PATH` clears its older
/// install first, and that cleanup takes out of `PATH` every entry holding the
/// component's executable, so no older copy stays reachable.
pub proof fn lemma_cleanup_clears_old_executables(name: Seq<char>, version: Seq<char>, root: Seq<char>)
    ensures
        forall|i: int|
            0 <= i < install_plan_spec(name, version, false, root).len() && (
            #[trigger] install_plan_spec(name, version, false, root)[i]) is AppendPath ==> {
                &&& install_plan_spec(name, version, false, root)[0] == StepView::Cleanup(name)
                &&& path_executable(name).len() > 0
                &&& clears_exe_entries(cleanup_plan(name), path_executable(name))
            },
{
    let plan = install_plan_spec(name, version, false, root);
    reveal_strlit("node.exe");
    reveal_strlit("java.exe");
    reveal_strlit("mvn.cmd");
    reveal_strlit("mysql.exe");
    if name == "nodejs"@ {
        let c = cleanup_plan(name);
        assert(c[2] matches CleanupStep::RemovePathEntriesForExe(e) && e@ == "node.exe"@);
    } else if name == "jdk"@ {
        let c = cleanup_plan(name);
        assert(c[1] matches CleanupStep::ScanPathEntriesForExe(e) && e@ == "java.exe"@);
        assert(c[3] is RemoveScannedEntries);
    } else if name == "maven"@ {
        let c = cleanup_plan(name);
        assert(c[1] matches CleanupStep::RemovePathEntriesForExe(e) && e@ == "mvn.cmd"@);
    } else if name == "mysql"@ {
        let c = cleanup_plan(name);
        assert(c[1] matches CleanupStep::RemovePathEntriesForExe(e) && e@ == "mysql.exe"@);
    } else {
        assert forall|i: int| 0 <= i < plan.len() implies !(#[trigger] plan[i] is AppendPath) by {}
    }
}

/// Whether rollback `actions` take entry `p` out of `PATH`: directly, or by
/// removing the JDK directory whose `bin` it is.
pub open spec fn removes_path_entry(actions: Seq<ActionView>, p: Seq<char>) -> bool {
    actions.contains(ActionView::RemovePathEntry(p)) || exists|d: Seq<char>|
        #[trigger] actions.contains(ActionView::RemoveJdkDir(d)) && d + "\\bin"@ == p
}

/// The rollback of a list of components holds the undoing steps of each of them.
proof fn lemma_rollback_holds(components: Seq<Seq<char>>, root: Seq<char>, c: Seq<char>)
    requires
        components.contains(c),
    ensures
        forall|a: ActionView|
            #[trigger] component_rollback(c, root).0.contains(a) ==> rollback_spec(components, root).0.contains(a),
    decreases components.len(),
{
    let front = components.drop_last();
    let last = components.last();
    let prev = rollback_spec(front, root);
    let all = rollback_spec(components, root).0;
    let head = prev.0 + seq![ActionView::Status(last, "正在回滚 "@ + last + "..."@)];
    let step = component_rollback(last, root).0;
    assert(all == head + step + seq![ActionView::Done(last, last + " 已回滚"@)]);
    if last == c {
        assert forall|a: ActionView| #[trigger] component_rollback(c, root).0.contains(a) implies all.contains(a) by {
            let i = choose|i: int| 0 <= i < step.len() && step[i] == a;
            assert(all[head.len() + i] == a);
        }
    } else {
        let k = choose|k: int| 0 <= k < components.len() && components[k] == c;
        assert(k < components.len() - 1);
        assert(front[k] == c);
        lemma_rollback_holds(front, root, c);
        assert forall|a: ActionView| #[trigger] component_rollback(c, root).0.contains(a) implies all.contains(a) by {
            assert(prev.0.contains(a));
            let i = choose|i: int| 0 <= i < prev.0.len() && prev.0[i] == a;
            assert(all[i] == a);
        }
    }
}

/// Rolling back a list of installed components takes out of `PATH` every
/// directory that the install of any of them added to it. The rollback knows
/// the JDK directories of majors 17 and 21 only, so for the JDK this holds of
/// those majors.
pub proof fn lemma_rollback_clears_path(
    components: Seq<Seq<char>>,
    name: Seq<char>,
    version: Seq<char>,
    root: Seq<char>,
)
    requires
        components.contains(name),
        name == "jdk"@ ==> split_on(version, seq!['.'])[0] == "17"@ || split_on(version, seq!['.'])[0]
            == "21"@,
    ensures
        forall|i: int|
            0 <= i < install_plan_spec(name, version, false, root).len() ==> (
            #[trigger] install_plan_spec(name, version, false, root)[i] matches StepView::AppendPath(p)
                ==> removes_path_entry(rollback_spec(components, root).0, p)),
{
    let plan = install_plan_spec(name, version, false, root);
    let own = component_rollback(name, root).0;
    lemma_rollback_holds(components, root, name);
    let all = rollback_spec(components, root).0;
    reveal_strlit("\\");
    reveal_strlit("jdk");
    reveal_strlit("\\jdk");
    reveal_strlit("maven");
    reveal_strlit("\\maven");
    reveal_strlit("mysql");
    reveal_strlit("\\mysql");
    if name == "nodejs"@ {
        assert(plan[7] == StepView::AppendPath(root + "\\nodejs"@));
        assert(own[0] == ActionView::RemovePathEntry(root + "\\nodejs"@));
        assert(own.contains(own[0]));
        assert(all.contains(ActionView::RemovePathEntry(root + "\\nodejs"@)));
    } else if name == "jdk"@ {
        let major = split_on(version, seq!['.'])[0];
        let target = root + "\\"@ + ("jdk"@ + major);
        assert(plan[7] == StepView::AppendPath(target + "\\bin"@));
        let d = if major == "17"@ { root + "\\jdk"@ + "17"@ } else { root + "\\jdk"@ + "21"@ };
        assert(d =~= target);
        if major == "17"@ {
            assert(own[0] == ActionView::RemoveJdkDir(d));
            assert(own.contains(own[0]));
        } else {
            assert(own[1] == ActionView::RemoveJdkDir(d));
            assert(own.contains(own[1]));
        }
        assert(all.contains(ActionView::RemoveJdkDir(d)));
    } else if name == "maven"@ {
        let p = root + "\\"@ + "maven"@ + "\\bin"@;
        assert(plan[9] == StepView::AppendPath(p));
        assert(root + "\\maven"@ + "\\bin"@ =~= p);
        assert(own[0] == ActionView::RemovePathEntry(p));
        assert(own.contains(own[0]));
        assert(all.contains(ActionView::RemovePathEntry(p)));
    } else if name == "mysql"@ {
        let p = root + "\\"@ + "mysql"@ + "\\bin"@;
        assert(plan[14] == StepView::AppendPath(p));
        assert(root + "\\mysql"@ + "\\bin"@ =~= p);
        assert(own[4] == ActionView::RemovePathEntry(p));
        assert(own.contains(own[4]));
        assert(all.contains(ActionView::RemovePathEntry(p)));
    }
    assert forall|i: int| 0 <= i < plan.len() implies (#[trigger] plan[i] matches StepView::AppendPath(p)
        ==> removes_path_entry(all, p)) by {}
}

/// The Windows service a MySQL step acts on, if any.
pub open spec fn step_service(s: StepView) -> Option<Seq<char>> {
    match s {
        StepView::RegisterService(_, n) => Some(n),
        StepView::StartService(n) => Some(n),
        StepView::SetRootPassword(_, n) => Some(n),
        _ => None,
    }
}

/// A MySQL install registers, starts and sets the root password of one
/// service, the one named for the installed version (`MySQL57` for 5.7,
/// `MySQL80` otherwise), and starts it only after registering it.
pub proof fn lemma_mysql_one_service(version: Seq<char>, root: Seq<char>)
    ensures
        forall|i: int|
            0 <= i < install_plan_spec("mysql"@, version, false, root).len() ==> (step_service(
                #[trigger] install_plan_spec("mysql"@, version, false, root)[i],
            ) matches Some(n) ==> n == mysql_service_name_spec(version)),
        exists|j: int, k: int|
            0 <= j < k < install_plan_spec("mysql"@, version, false, root).len()
                && #[trigger] install_plan_spec("mysql"@, version, false, root)[j] is RegisterService
                && #[trigger] install_plan_spec("mysql"@, version, false, root)[k]
                == StepView::StartService(mysql_service_name_spec(version)),
{
    reveal_strlit("mysql");
    reveal_strlit("nodejs");
    reveal_strlit("jdk");
    reveal_strlit("maven");
    assert("mysql"@.len() != "nodejs"@.len());
    assert("mysql"@.len() != "jdk"@.len());
    assert("mysql"@[1] != "maven"@[1]);
    let plan = install_plan_spec("mysql"@, version, false, root);
    assert(plan == mysql_plan(version, root));
    assert(plan[10] is RegisterService);
    assert(plan[11] == StepView::StartService(mysql_service_name_spec(version)));
}

} // verus!
