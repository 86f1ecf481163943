//! The install workflow around the component installers: which tasks a
//! configuration asks for, how outcomes are recorded and reported, cancellation,
//! and what a rollback undoes. Running the tasks, emitting the events and acting
//! on the file system are the caller's part.

use vstd::prelude::*;
use crate::text::{concat2, concat3, owned, chars_of, contains_chars, contains_text};
use crate::types::{InstallConfig, InstallEvent, InstallResult};
use crate::version_policy::{DEFAULT_IDEA, DEFAULT_NAVICAT, DEFAULT_REDIS};
use crate::version_catalog::pattern::string_views;

verus! {

// ---------------------------------------------------------------------------
// Tasks
// ---------------------------------------------------------------------------

/// One component task of an install run: the component, the version to fetch,
/// and whether only the download is to be checked.
pub struct PlannedTask {
    pub name: &'static str,
    pub version: String,
    pub dry_run: bool,
}

/// The model of a task: component name, version, dry run.
pub open spec fn task_view(t: PlannedTask) -> (Seq<char>, Seq<char>, bool) {
    (t.name@, t.version@, t.dry_run)
}

/// The models of a list of tasks.
pub open spec fn task_views(ts: Seq<PlannedTask>) -> Seq<(Seq<char>, Seq<char>, bool)> {
    ts.map_values(|t: PlannedTask| task_view(t))
}

/// A task for `name` at `version` when `selected`, else nothing.
pub open spec fn task_if(selected: bool, name: Seq<char>, version: Seq<char>, dry: bool) -> Seq<
    (Seq<char>, Seq<char>, bool),
> {
    if selected {
        seq![(name, version, dry)]
    } else {
        Seq::empty()
    }
}

/// The tasks of a configuration, in this order: Node.js, JDK, Maven, MySQL and
/// Tomcat at the chosen versions, then IDEA, Navicat and Redis at their fixed
/// versions; each only when selected, all with the configuration's dry-run flag.
pub open spec fn task_plan(c: InstallConfig) -> Seq<(Seq<char>, Seq<char>, bool)> {
    task_if(c.install_nodejs, "nodejs"@, c.node_version@, c.dry_run)
        + task_if(c.install_jdk, "jdk"@, c.jdk_version@, c.dry_run)
        + task_if(c.install_maven, "maven"@, c.maven_version@, c.dry_run)
        + task_if(c.install_mysql, "mysql"@, c.mysql_version@, c.dry_run)
        + task_if(c.install_tomcat, "tomcat"@, c.tomcat_version@, c.dry_run)
        + task_if(c.install_idea, "idea"@, DEFAULT_IDEA@, c.dry_run)
        + task_if(c.install_navicat, "navicat"@, DEFAULT_NAVICAT@, c.dry_run)
        + task_if(c.install_redis, "redis"@, DEFAULT_REDIS@, c.dry_run)
}

fn add_task(
    tasks: &mut Vec<PlannedTask>,
    selected: bool,
    name: &'static str,
    version: &str,
    dry_run: bool,
)
    ensures
        task_views(final(tasks)@) == task_views(old(tasks)@) + task_if(
            selected,
            name@,
            version@,
            dry_run,
        ),
{
    if selected {
        let ghost before = tasks@;
        tasks.push(PlannedTask { name, version: owned(version), dry_run });
        assert(task_views(tasks@) =~= task_views(before) + task_if(selected, name@, version@, dry_run));
    } else {
        assert(task_views(tasks@) =~= task_views(tasks@) + task_if(selected, name@, version@, dry_run));
    }
}

/// The tasks an install run performs for `config`, in order.
pub fn build_task_list(config: &InstallConfig) -> (r: Vec<PlannedTask>)
    ensures
        task_views(r@) == task_plan(*config),
{
    let c = config;
    let dry = c.dry_run;
    let mut tasks: Vec<PlannedTask> = Vec::new();
    assert(task_views(tasks@) =~= Seq::<(Seq<char>, Seq<char>, bool)>::empty());
    add_task(&mut tasks, c.install_nodejs, "nodejs", c.node_version.as_str(), dry);
    add_task(&mut tasks, c.install_jdk, "jdk", c.jdk_version.as_str(), dry);
    add_task(&mut tasks, c.install_maven, "maven", c.maven_version.as_str(), dry);
    add_task(&mut tasks, c.install_mysql, "mysql", c.mysql_version.as_str(), dry);
    add_task(&mut tasks, c.install_tomcat, "tomcat", c.tomcat_version.as_str(), dry);
    add_task(&mut tasks, c.install_idea, "idea", DEFAULT_IDEA, dry);
    add_task(&mut tasks, c.install_navicat, "navicat", DEFAULT_NAVICAT, dry);
    add_task(&mut tasks, c.install_redis, "redis", DEFAULT_REDIS, dry);
    assert(task_views(tasks@) =~= task_plan(*config));
    tasks
}

/// The scratch directory of an install run under `install_root`.
pub fn temp_dir(install_root: &str) -> (r: String)
    ensures
        r@ == install_root@ + "\\_temp"@,
{
    concat2(install_root, "\\_temp")
}

// ---------------------------------------------------------------------------
// Events and results
// ---------------------------------------------------------------------------

/// The model of an event: component, phase, message, success, done.
pub open spec fn event_view(e: InstallEvent) -> (Seq<char>, Seq<char>, Seq<char>, bool, bool) {
    (e.component@, e.phase@, e.message@, e.success, e.done)
}

/// A progress event of `component` in `phase`.
pub fn status_event(component: &str, phase: &str, msg: &str) -> (r: InstallEvent)
    ensures
        event_view(r) == (component@, phase@, msg@, true, false),
{
    InstallEvent {
        component: owned(component),
        phase: owned(phase),
        message: owned(msg),
        success: true,
        done: false,
    }
}

/// The final event of `component`: phase "complete" on success, "error" otherwise.
pub fn done_event(component: &str, success: bool, msg: &str) -> (r: InstallEvent)
    ensures
        event_view(r) == (
            component@,
            if success {
                "complete"@
            } else {
                "error"@
            },
            msg@,
            success,
            true,
        ),
{
    let phase = if success {
        "complete"
    } else {
        "error"
    };
    InstallEvent {
        component: owned(component),
        phase: owned(phase),
        message: owned(msg),
        success,
        done: true,
    }
}

/// The model of an install result: component, success, message.
pub open spec fn result_view(r: InstallResult) -> (Seq<char>, bool, Seq<char>) {
    (r.component@, r.success, r.message@)
}

/// The models of a list of install results.
pub open spec fn result_views(rs: Seq<InstallResult>) -> Seq<(Seq<char>, bool, Seq<char>)> {
    rs.map_values(|r: InstallResult| result_view(r))
}

/// Records the outcome of task `name` in `results`: a success as "<name> 安装成功",
/// a failure with its error, for which the final error event to emit is returned.
pub fn record_install_result(
    name: &str,
    result: Result<(), String>,
    results: &mut Vec<InstallResult>,
) -> (r: Option<InstallEvent>)
    ensures
        result is Ok ==> r is None && result_views(final(results)@) == result_views(
            old(results)@,
        ).push((name@, true, name@ + " 安装成功"@)),
        result matches Err(e) ==> (r matches Some(ev) && event_view(ev) == (
            name@,
            "error"@,
            e@,
            false,
            true,
        ) && result_views(final(results)@) == result_views(old(results)@).push(
            (name@, false, e@),
        )),
{
    let ghost before = results@;
    match result {
        Ok(()) => {
            results.push(
                InstallResult {
                    component: owned(name),
                    success: true,
                    message: concat2(name, " 安装成功"),
                },
            );
            assert(result_views(results@) =~= result_views(before).push(
                (name@, true, name@ + " 安装成功"@),
            ));
            None
        },
        Err(e) => {
            let ev = done_event(name, false, e.as_str());
            results.push(InstallResult { component: owned(name), success: false, message: e });
            assert(result_views(results@) =~= result_views(before).push((name@, false, e@)));
            Some(ev)
        },
    }
}

/// The answer of the cancellation check made before each task.
pub fn check_cancel(cancelled: bool) -> (r: Result<(), String>)
    ensures
        !cancelled <==> r is Ok,
        cancelled ==> (r matches Err(e) && e@ == "用户取消安装"@),
{
    if cancelled {
        Err(owned("用户取消安装"))
    } else {
        Ok(())
    }
}

/// What a task that finds the install cancelled does: it reports an error event
/// "安装已取消" and ends with that error.
pub fn cancelled_task(name: &str) -> (r: (InstallEvent, Result<(), String>))
    ensures
        event_view(r.0) == (name@, "error"@, "安装已取消"@, true, false),
        r.1 matches Err(e) && e@ == "安装已取消"@,
{
    (status_event(name, "error", "安装已取消"), Err(owned("安装已取消")))
}

/// The outcome of a task whose execution itself failed (it panicked or was aborted).
pub fn task_failure(detail: &str) -> (r: Result<(), String>)
    ensures
        r matches Err(e) && e@ == "任务执行异常: "@ + detail@,
{
    Err(concat2("任务执行异常: ", detail))
}

/// Whether the run tells the user that, not being elevated, variables go to the
/// user's registry key: only for a real (not dry) run without elevation.
pub fn needs_elevation_notice(dry_run: bool, elevated: bool) -> (r: bool)
    ensures
        r == (!dry_run && !elevated),
{
    !dry_run && !elevated
}

/// Whether some result reports a cancellation (its message contains "已取消").
pub open spec fn any_cancelled(rs: Seq<(Seq<char>, bool, Seq<char>)>) -> bool {
    exists|i: int| 0 <= i < rs.len() && contains_text((#[trigger] rs[i]).2, "已取消"@)
}

/// The components whose results are successes, in order.
pub open spec fn completed(rs: Seq<(Seq<char>, bool, Seq<char>)>) -> Seq<Seq<char>>
    decreases rs.len(),
{
    if rs.len() == 0 {
        Seq::<Seq<char>>::empty()
    } else {
        let prev = completed(rs.drop_last());
        if rs.last().1 {
            prev.push(rs.last().0)
        } else {
            prev
        }
    }
}

/// After a run: when some task was cancelled, the components that did complete
/// (which the user may roll back); `None` when nothing was cancelled.
pub fn cancellation_summary(results: &Vec<InstallResult>) -> (r: Option<Vec<String>>)
    ensures
        any_cancelled(result_views(results@)) ==> (r matches Some(v) && string_views(v@)
            == completed(result_views(results@))),
        !any_cancelled(result_views(results@)) ==> r is None,
{
    let ghost rv = result_views(results@);
    let needle = chars_of("已取消");
    let mut cancelled = false;
    let mut done: Vec<String> = Vec::new();
    let mut i: usize = 0;
    while i < results.len()
        invariant
            0 <= i <= results@.len(),
            rv == result_views(results@),
            needle@ == "已取消"@,
            cancelled == any_cancelled(rv.take(i as int)),
            string_views(done@) == completed(rv.take(i as int)),
        decreases results@.len() - i,
    {
        let res = &results[i];
        proof {
            assert(rv.take(i + 1).drop_last() =~= rv.take(i as int));
            assert(rv.take(i + 1).last() == result_view(*res));
        }
        let mcs = chars_of(res.message.as_str());
        let hit = contains_chars(mcs.as_slice(), needle.as_slice());
        proof {
            let t = rv.take(i + 1);
            if hit {
                assert(t[i as int] == rv[i as int]);
                assert(contains_text(t[i as int].2, "已取消"@));
            }
            if any_cancelled(t) {
                let k = choose|k: int| 0 <= k < t.len() && contains_text((#[trigger] t[k]).2, "已取消"@);
                if k < i {
                    assert(rv.take(i as int)[k] == t[k]);
                }
            }
            if any_cancelled(rv.take(i as int)) {
                let k = choose|k: int| 0 <= k < i && contains_text((#[trigger] rv.take(i as int)[k]).2, "已取消"@);
                assert(t[k] == rv.take(i as int)[k]);
            }
        }
        cancelled = cancelled || hit;
        if res.success {
            let ghost before = done@;
            done.push(res.component.clone());
            proof {
                assert(string_views(done@) =~= string_views(before).push(res.component@));
            }
        }
        i += 1;
    }
    proof {
        assert(rv.take(results@.len() as int) =~= rv);
    }
    if cancelled {
        Some(done)
    } else {
        None
    }
}

// ---------------------------------------------------------------------------
// Rollback
// ---------------------------------------------------------------------------

/// One step of rolling back installed components.
pub enum RollbackAction {
    /// Report progress of `component` (phase "config") with a message.
    Status(String, String),
    /// Remove an entry from `PATH`.
    RemovePathEntry(String),
    /// Delete an environment variable.
    RemoveEnv(&'static str),
    /// Delete a directory when it exists.
    RemoveDir(String),
    /// When this JDK directory exists: remove its `bin` from `PATH`, then delete it.
    RemoveJdkDir(String),
    /// Stop a Windows service, then wait for it to go down.
    StopService(&'static str),
    /// Delete a Windows service.
    DeleteService(&'static str),
    /// Report `component` done (success) with a message.
    Done(String, String),
}

/// The model of a rollback step.
pub enum ActionView {
    Status(Seq<char>, Seq<char>),
    RemovePathEntry(Seq<char>),
    RemoveEnv(Seq<char>),
    RemoveDir(Seq<char>),
    RemoveJdkDir(Seq<char>),
    StopService(Seq<char>),
    DeleteService(Seq<char>),
    Done(Seq<char>, Seq<char>),
}

impl View for RollbackAction {
    type V = ActionView;

    open spec fn view(&self) -> ActionView {
        match self {
            RollbackAction::Status(c, m) => ActionView::Status(c@, m@),
            RollbackAction::RemovePathEntry(p) => ActionView::RemovePathEntry(p@),
            RollbackAction::RemoveEnv(k) => ActionView::RemoveEnv(k@),
            RollbackAction::RemoveDir(d) => ActionView::RemoveDir(d@),
            RollbackAction::RemoveJdkDir(d) => ActionView::RemoveJdkDir(d@),
            RollbackAction::StopService(s) => ActionView::StopService(s@),
            RollbackAction::DeleteService(s) => ActionView::DeleteService(s@),
            RollbackAction::Done(c, m) => ActionView::Done(c@, m@),
        }
    }
}

/// The models of a list of rollback steps.
pub open spec fn action_views(v: Seq<RollbackAction>) -> Seq<ActionView> {
    v.map_values(|a: RollbackAction| a@)
}

/// Undoing Node.js: its directory leaves `PATH`, `NODE_HOME` goes, the directory goes.
pub open spec fn node_rollback_spec(root: Seq<char>) -> Seq<ActionView> {
    let dir = root + "\\nodejs"@;
    seq![
        ActionView::RemovePathEntry(dir),
        ActionView::RemoveEnv("NODE_HOME"@),
        ActionView::RemoveDir(dir),
    ]
}

/// Undoing the JDK: each of the JDK 17 and 21 directories that exists leaves
/// `PATH` and is deleted; `JAVA_HOME` goes.
pub open spec fn jdk_rollback_spec(root: Seq<char>) -> Seq<ActionView> {
    seq![
        ActionView::RemoveJdkDir(root + "\\jdk"@ + "17"@),
        ActionView::RemoveJdkDir(root + "\\jdk"@ + "21"@),
        ActionView::RemoveEnv("JAVA_HOME"@),
    ]
}

/// Undoing Maven: its `bin` leaves `PATH`, `MAVEN_HOME` goes, the directory goes.
pub open spec fn maven_rollback_spec(root: Seq<char>) -> Seq<ActionView> {
    let dir = root + "\\maven"@;
    seq![
        ActionView::RemovePathEntry(dir + "\\bin"@),
        ActionView::RemoveEnv("MAVEN_HOME"@),
        ActionView::RemoveDir(dir),
    ]
}

/// Undoing MySQL: every service the installer manages (MySQL80 and MySQL57, so
/// whichever the installed version registered) is stopped and deleted, its `bin`
/// leaves `PATH`, `MYSQL_HOME` goes, the directory goes.
pub open spec fn mysql_rollback_spec(root: Seq<char>) -> Seq<ActionView> {
    let dir = root + "\\mysql"@;
    seq![
        ActionView::StopService("MySQL80"@),
        ActionView::DeleteService("MySQL80"@),
        ActionView::StopService("MySQL57"@),
        ActionView::DeleteService("MySQL57"@),
        ActionView::RemovePathEntry(dir + "\\bin"@),
        ActionView::RemoveEnv("MYSQL_HOME"@),
        ActionView::RemoveDir(dir),
    ]
}

/// Undoing a downloaded tool: its directory goes.
pub open spec fn dir_rollback_spec(root: Seq<char>, dir_name: Seq<char>) -> Seq<ActionView> {
    seq![ActionView::RemoveDir(root + "\\"@ + dir_name)]
}

/// The steps undoing `component` and the label it adds to the rolled-back list
/// (nothing for a component the rollback does not know).
pub open spec fn component_rollback(component: Seq<char>, root: Seq<char>) -> (
    Seq<ActionView>,
    Seq<Seq<char>>,
) {
    if component == "nodejs"@ {
        (node_rollback_spec(root), seq!["Node.js"@])
    } else if component == "jdk"@ {
        (jdk_rollback_spec(root), seq!["JDK"@])
    } else if component == "maven"@ {
        (maven_rollback_spec(root), seq!["Maven"@])
    } else if component == "mysql"@ {
        (mysql_rollback_spec(root), seq!["MySQL"@])
    } else if component == "idea"@ {
        (dir_rollback_spec(root, "IDEA"@), seq!["IDEA"@])
    } else if component == "navicat"@ {
        (dir_rollback_spec(root, "Navicat"@), seq!["Navicat"@])
    } else if component == "redis"@ {
        (dir_rollback_spec(root, "redis"@), seq!["Redis"@])
    } else {
        (Seq::empty(), Seq::empty())
    }
}

/// The rollback of `components` in order: for each, a progress report, its
/// undoing steps and a done report; and the labels of what was rolled back.
pub open spec fn rollback_spec(components: Seq<Seq<char>>, root: Seq<char>) -> (
    Seq<ActionView>,
    Seq<Seq<char>>,
)
    decreases components.len(),
{
    if components.len() == 0 {
        (Seq::empty(), Seq::empty())
    } else {
        let prev = rollback_spec(components.drop_last(), root);
        let c = components.last();
        let step = component_rollback(c, root);
        (
            prev.0 + seq![ActionView::Status(c, "正在回滚 "@ + c + "..."@)] + step.0 + seq![
                ActionView::Done(c, c + " 已回滚"@),
            ],
            prev.1 + step.1,
        )
    }
}

/// The steps undoing Node.js under `install_root`; records "Node.js".
pub fn rollback_node(install_root: &str, rolled_back: &mut Vec<String>) -> (r: Vec<RollbackAction>)
    ensures
        action_views(r@) == node_rollback_spec(install_root@),
        string_views(final(rolled_back)@) == string_views(old(rolled_back)@).push("Node.js"@),
{
    let dir = concat2(install_root, "\\nodejs");
    let r = vec![
        RollbackAction::RemovePathEntry(dir.clone()),
        RollbackAction::RemoveEnv("NODE_HOME"),
        RollbackAction::RemoveDir(dir),
    ];
    assert(action_views(r@) =~= node_rollback_spec(install_root@));
    let ghost before = rolled_back@;
    rolled_back.push(owned("Node.js"));
    assert(string_views(rolled_back@) =~= string_views(before).push("Node.js"@));
    r
}

/// The steps undoing the JDK under `install_root`; records "JDK".
pub fn rollback_jdk(install_root: &str, rolled_back: &mut Vec<String>) -> (r: Vec<RollbackAction>)
    ensures
        action_views(r@) == jdk_rollback_spec(install_root@),
        string_views(final(rolled_back)@) == string_views(old(rolled_back)@).push("JDK"@),
{
    let r = vec![
        RollbackAction::RemoveJdkDir(concat3(install_root, "\\jdk", "17")),
        RollbackAction::RemoveJdkDir(concat3(install_root, "\\jdk", "21")),
        RollbackAction::RemoveEnv("JAVA_HOME"),
    ];
    assert(action_views(r@) =~= jdk_rollback_spec(install_root@));
    let ghost prev = rolled_back@;
    rolled_back.push(owned("JDK"));
    assert(string_views(rolled_back@) =~= string_views(prev).push("JDK"@));
    r
}

/// The steps undoing Maven under `install_root`; records "Maven".
pub fn rollback_maven(install_root: &str, rolled_back: &mut Vec<String>) -> (r: Vec<RollbackAction>)
    ensures
        action_views(r@) == maven_rollback_spec(install_root@),
        string_views(final(rolled_back)@) == string_views(old(rolled_back)@).push("Maven"@),
{
    let dir = concat2(install_root, "\\maven");
    let r = vec![
        RollbackAction::RemovePathEntry(concat2(dir.as_str(), "\\bin")),
        RollbackAction::RemoveEnv("MAVEN_HOME"),
        RollbackAction::RemoveDir(dir),
    ];
    assert(action_views(r@) =~= maven_rollback_spec(install_root@));
    let ghost before = rolled_back@;
    rolled_back.push(owned("Maven"));
    assert(string_views(rolled_back@) =~= string_views(before).push("Maven"@));
    r
}

/// The steps undoing MySQL under `install_root`; records "MySQL".
pub fn rollback_mysql(install_root: &str, rolled_back: &mut Vec<String>) -> (r: Vec<RollbackAction>)
    ensures
        action_views(r@) == mysql_rollback_spec(install_root@),
        string_views(final(rolled_back)@) == string_views(old(rolled_back)@).push("MySQL"@),
{
    let dir = concat2(install_root, "\\mysql");
    let r = vec![
        RollbackAction::StopService("MySQL80"),
        RollbackAction::DeleteService("MySQL80"),
        RollbackAction::StopService("MySQL57"),
        RollbackAction::DeleteService("MySQL57"),
        RollbackAction::RemovePathEntry(concat2(dir.as_str(), "\\bin")),
        RollbackAction::RemoveEnv("MYSQL_HOME"),
        RollbackAction::RemoveDir(dir),
    ];
    assert(action_views(r@) =~= mysql_rollback_spec(install_root@));
    let ghost before = rolled_back@;
    rolled_back.push(owned("MySQL"));
    assert(string_views(rolled_back@) =~= string_views(before).push("MySQL"@));
    r
}

/// The steps undoing a tool downloaded into `dir_name`; records `label`.
pub fn rollback_dir(
    install_root: &str,
    dir_name: &str,
    label: &str,
    rolled_back: &mut Vec<String>,
) -> (r: Vec<RollbackAction>)
    ensures
        action_views(r@) == dir_rollback_spec(install_root@, dir_name@),
        string_views(final(rolled_back)@) == string_views(old(rolled_back)@).push(label@),
{
    let r = vec![RollbackAction::RemoveDir(concat3(install_root, "\\", dir_name))];
    assert(action_views(r@) =~= dir_rollback_spec(install_root@, dir_name@));
    let ghost before = rolled_back@;
    rolled_back.push(owned(label));
    assert(string_views(rolled_back@) =~= string_views(before).push(label@));
    r
}

fn component_steps(component: &str, install_root: &str, rolled_back: &mut Vec<String>) -> (r: Vec<
    RollbackAction,
>)
    ensures
        action_views(r@) == component_rollback(component@, install_root@).0,
        string_views(final(rolled_back)@) == string_views(old(rolled_back)@) + component_rollback(
            component@,
            install_root@,
        ).1,
{
    let ghost before = rolled_back@;
    if crate::text::str_eq(component, "nodejs") {
        let r = rollback_node(install_root, rolled_back);
        assert(string_views(rolled_back@) =~= string_views(before) + seq!["Node.js"@]);
        r
    } else if crate::text::str_eq(component, "jdk") {
        let r = rollback_jdk(install_root, rolled_back);
        assert(string_views(rolled_back@) =~= string_views(before) + seq!["JDK"@]);
        r
    } else if crate::text::str_eq(component, "maven") {
        let r = rollback_maven(install_root, rolled_back);
        assert(string_views(rolled_back@) =~= string_views(before) + seq!["Maven"@]);
        r
    } else if crate::text::str_eq(component, "mysql") {
        let r = rollback_mysql(install_root, rolled_back);
        assert(string_views(rolled_back@) =~= string_views(before) + seq!["MySQL"@]);
        r
    } else if crate::text::str_eq(component, "idea") {
        let r = rollback_dir(install_root, "IDEA", "IDEA", rolled_back);
        assert(string_views(rolled_back@) =~= string_views(before) + seq!["IDEA"@]);
        r
    } else if crate::text::str_eq(component, "navicat") {
        let r = rollback_dir(install_root, "Navicat", "Navicat", rolled_back);
        assert(string_views(rolled_back@) =~= string_views(before) + seq!["Navicat"@]);
        r
    } else if crate::text::str_eq(component, "redis") {
        let r = rollback_dir(install_root, "redis", "Redis", rolled_back);
        assert(string_views(rolled_back@) =~= string_views(before) + seq!["Redis"@]);
        r
    } else {
        let r: Vec<RollbackAction> = Vec::new();
        assert(action_views(r@) =~= Seq::<ActionView>::empty());
        assert(string_views(rolled_back@) =~= string_views(before) + Seq::<Seq<char>>::empty());
        r
    }
}

/// The rollback of the installed `components` under `install_root`: the steps to
/// perform in order, and the labels of what is rolled back.
pub fn rollback(components: &Vec<String>, install_root: &str) -> (r: (
    Vec<RollbackAction>,
    Vec<String>,
))
    ensures
        action_views(r.0@) == rollback_spec(string_views(components@), install_root@).0,
        string_views(r.1@) == rollback_spec(string_views(components@), install_root@).1,
{
    let ghost cv = string_views(components@);
    let mut actions: Vec<RollbackAction> = Vec::new();
    let mut rolled_back: Vec<String> = Vec::new();
    let mut i: usize = 0;
    while i < components.len()
        invariant
            0 <= i <= components@.len(),
            cv == string_views(components@),
            action_views(actions@) == rollback_spec(cv.take(i as int), install_root@).0,
            string_views(rolled_back@) == rollback_spec(cv.take(i as int), install_root@).1,
        decreases components@.len() - i,
    {
        let comp = components[i].as_str();
        proof {
            assert(cv.take(i + 1).drop_last() =~= cv.take(i as int));
            assert(cv.take(i + 1).last() == comp@);
        }
        let ghost a0 = actions@;
        actions.push(RollbackAction::Status(owned(comp), concat3("正在回滚 ", comp, "...")));
        let mut steps = component_steps(comp, install_root, &mut rolled_back);
        let ghost st = steps@;
        actions.append(&mut steps);
        actions.push(RollbackAction::Done(owned(comp), concat2(comp, " 已回滚")));
        proof {
            assert(action_views(actions@) =~= action_views(a0) + seq![
                ActionView::Status(comp@, "正在回滚 "@ + comp@ + "..."@),
            ] + action_views(st) + seq![ActionView::Done(comp@, comp@ + " 已回滚"@)]);
        }
        i += 1;
    }
    proof {
        assert(cv.take(components@.len() as int) =~= cv);
    }
    (actions, rolled_back)
}

} // verus!
