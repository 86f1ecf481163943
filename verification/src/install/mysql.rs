//! MySQL specifics: the install path rule, the service name, `my.ini`, the
//! console command line, and how the answers of `mysqld` are read.

use vstd::prelude::*;
use crate::text::{
    chars_of, concat2, concat3, owned, is_ascii_text, all_ascii, replace_char, replaced,
    u32_to_text, decimal, join_chars, join_with, views, contains_char, contains_chars,
    contains_text, string_from_chars, trim_text, trimmed,
};
use crate::version_policy::{mysql_service_name, mysql_service_name_spec};
use crate::install::plan::{InstallStep, StepView, step_views};

verus! {

/// The message of a refused install path.
pub open spec fn non_ascii_path_message(path: Seq<char>) -> Seq<char> {
    "安装路径包含非英文字符: "@ + path
        + "\nMySQL 不支持中文路径，请选择纯英文路径（如 D:\\develop\\software）"@
}

/// Accepts an install path only when it is pure ASCII: `mysqld` may fail to
/// initialise under a non-ASCII path on Windows with a GBK code page.
pub fn validate_install_path(path: &str) -> (r: Result<(), String>)
    ensures
        all_ascii(path@) <==> r is Ok,
        !all_ascii(path@) ==> (r matches Err(e) && e@ == non_ascii_path_message(path@)),
{
    if !is_ascii_text(path) {
        return Err(
            concat3(
                "安装路径包含非英文字符: ",
                path,
                "\nMySQL 不支持中文路径，请选择纯英文路径（如 D:\\develop\\software）",
            ),
        );
    }
    Ok(())
}

/// The Windows service name of MySQL `version`: "MySQL57" for 5.7 releases,
/// "MySQL80" otherwise.
pub fn service_name_for_version(version: &str) -> (r: &'static str)
    ensures
        r@ == mysql_service_name_spec(version@),
{
    mysql_service_name(version)
}

/// The port MySQL is configured with: 3306 when it could be bound, else 3307.
pub fn select_port(port_3306_free: bool) -> (r: u16)
    ensures
        r == (if port_3306_free {
            3306u16
        } else {
            3307u16
        }),
{
    if port_3306_free {
        3306
    } else {
        3307
    }
}

/// The lines of `my.ini` for an install in `base` (with `/` separators) and `port`.
pub open spec fn my_ini_lines(base: Seq<char>, port: u16) -> Seq<Seq<char>> {
    seq![
        "[mysqld]"@,
        "port="@ + decimal(port as nat),
        "basedir=\""@ + base + "\""@,
        "datadir=\""@ + base + "/data"@ + "\""@,
        "lc-messages-dir=\""@ + base + "/share"@ + "\""@,
        "skip-name-resolve"@,
        "max_connections=200"@,
        "character-set-server=utf8mb4"@,
        "default-storage-engine=INNODB"@,
        ""@,
        "[mysql]"@,
        "default-character-set=utf8mb4"@,
        ""@,
        "[client]"@,
        "port="@ + decimal(port as nat),
        "default-character-set=utf8mb4"@,
    ]
}

/// The text of `my.ini` for an install in `mysql_home`: the lines above joined
/// with CRLF, the paths written with forward slashes so that MySQL does not read
/// `\b` or `\t` in them as escapes. The messages directory is set explicitly and
/// host names are not resolved, which keeps the server working on Chinese Windows.
pub open spec fn my_ini_spec(mysql_home: Seq<char>, port: u16) -> Seq<char> {
    join_with(my_ini_lines(replaced(mysql_home, '\\', '/'), port), "\r\n"@)
}

fn line(s: &str) -> (r: Vec<char>)
    ensures
        r@ == s@,
{
    chars_of(s)
}

/// The text of `my.ini` for an install in `mysql_home` listening on `port`.
pub fn my_ini_content(mysql_home: &str, port: u16) -> (r: String)
    ensures
        r@ == my_ini_spec(mysql_home@, port),
{
    let base = replace_char(mysql_home, '\\', '/');
    let p = u32_to_text(port as u32);
    let port_line = concat2("port=", p.as_str());
    let data = concat2(base.as_str(), "/data");
    let share = concat2(base.as_str(), "/share");
    let mut lines: Vec<Vec<char>> = Vec::new();
    lines.push(line("[mysqld]"));
    lines.push(line(port_line.as_str()));
    lines.push(line(concat3("basedir=\"", base.as_str(), "\"").as_str()));
    lines.push(line(concat3("datadir=\"", data.as_str(), "\"").as_str()));
    lines.push(line(concat3("lc-messages-dir=\"", share.as_str(), "\"").as_str()));
    lines.push(line("skip-name-resolve"));
    lines.push(line("max_connections=200"));
    lines.push(line("character-set-server=utf8mb4"));
    lines.push(line("default-storage-engine=INNODB"));
    lines.push(line(""));
    lines.push(line("[mysql]"));
    lines.push(line("default-character-set=utf8mb4"));
    lines.push(line(""));
    lines.push(line("[client]"));
    lines.push(line(port_line.as_str()));
    lines.push(line("default-character-set=utf8mb4"));
    let sep = chars_of("\r\n");
    proof {
        let want = my_ini_lines(base@, port);
        assert(lines@[3]@ =~= want[3]);
        assert(lines@[4]@ =~= want[4]);
        assert(lines@[2]@ =~= want[2]);
        assert(lines@[1]@ =~= want[1]);
        assert(views(lines@) =~= want);
    }
    let joined = join_chars(&lines, sep.as_slice());
    string_from_chars(joined.as_slice())
}

/// Where `my.ini` is written.
pub fn my_ini_path(mysql_home: &str) -> (r: String)
    ensures
        r@ == mysql_home@ + "\\my.ini"@,
{
    concat2(mysql_home, "\\my.ini")
}

/// A command-line word, in double quotes when it holds a space.
pub open spec fn quoted(s: Seq<char>) -> Seq<char> {
    if s.contains(' ') {
        "\""@ + s + "\""@
    } else {
        s
    }
}

fn quote(s: &str) -> (r: Vec<char>)
    ensures
        r@ == quoted(s@),
{
    let cs = chars_of(s);
    if contains_char(cs.as_slice(), ' ') {
        chars_of(concat3("\"", s, "\"").as_str())
    } else {
        cs
    }
}

/// The command that `cmd /C` runs for `program` with `args`: the console is
/// switched to the UTF-8 code page first, so that `mysqld`'s messages are read
/// correctly, then the quoted words are run.
pub open spec fn utf8_command_spec(program: Seq<char>, args: Seq<Seq<char>>) -> Seq<char> {
    "chcp 65001 >nul 2>&1 && "@ + join_with(
        seq![quoted(program)] + args.map_values(|a: Seq<char>| quoted(a)),
        " "@,
    )
}

/// The command line given to `cmd /C` to run `program` with `args` under the
/// UTF-8 code page.
pub fn utf8_command_line(program: &str, args: &Vec<&str>) -> (r: String)
    ensures
        r@ == utf8_command_spec(program@, crate::text::texts(args@)),
{
    let ghost words = seq![quoted(program@)] + crate::text::texts(args@).map_values(
        |a: Seq<char>| quoted(a),
    );
    let mut pieces: Vec<Vec<char>> = Vec::new();
    pieces.push(quote(program));
    let mut i: usize = 0;
    while i < args.len()
        invariant
            0 <= i <= args@.len(),
            words == seq![quoted(program@)] + crate::text::texts(args@).map_values(
                |a: Seq<char>| quoted(a),
            ),
            views(pieces@) == words.take(i + 1),
        decreases args@.len() - i,
    {
        let ghost before = pieces@;
        pieces.push(quote(args[i]));
        proof {
            assert(views(pieces@) =~= views(before).push(quoted(args@[i as int]@)));
            assert(words[i + 1] == quoted(args@[i as int]@));
            assert(views(pieces@) =~= words.take(i + 2));
        }
        i += 1;
    }
    proof {
        assert(words.take(args@.len() as int + 1) =~= words);
    }
    let sep = chars_of(" ");
    let joined = join_chars(&pieces, sep.as_slice());
    let body = string_from_chars(joined.as_slice());
    concat2("chcp 65001 >nul 2>&1 && ", body.as_str())
}

/// Whether `mysqld --initialize-insecure` succeeded: its exit status says so, or
/// its output reports the root account created or initialisation.
pub open spec fn init_succeeded(status_ok: bool, output: Seq<char>) -> bool {
    status_ok || contains_text(output, "root@localhost is created"@) || contains_text(
        output,
        "initializ"@,
    )
}

/// Reads the answer of `mysqld --initialize-insecure --console`: `Ok` when it
/// succeeded, else the error naming the likely causes with its error output.
pub fn initialization_result(status_ok: bool, stdout: &str, stderr: &str) -> (r: Result<
    (),
    String,
>)
    ensures
        init_succeeded(status_ok, stdout@ + stderr@) <==> r is Ok,
        !init_succeeded(status_ok, stdout@ + stderr@) ==> (r matches Err(e) && e@
            == "MySQL 初始化失败（可能原因：路径含特殊字符或缺少 VC++ 运行库）: "@ + stderr@),
{
    let combined = concat2(stdout, stderr);
    let cs = chars_of(combined.as_str());
    let created = chars_of("root@localhost is created");
    let init = chars_of("initializ");
    if status_ok || contains_chars(cs.as_slice(), created.as_slice()) || contains_chars(
        cs.as_slice(),
        init.as_slice(),
    ) {
        Ok(())
    } else {
        Err(concat2("MySQL 初始化失败（可能原因：路径含特殊字符或缺少 VC++ 运行库）: ", stderr))
    }
}

/// Reads the answer of `mysqld --install <service>`: a failure whose error output
/// says the service already exists counts as success.
pub fn registration_result(status_ok: bool, stderr: &str) -> (r: Result<(), String>)
    ensures
        (status_ok || contains_text(stderr@, "already exists"@)) <==> r is Ok,
        !(status_ok || contains_text(stderr@, "already exists"@)) ==> (r matches Err(e) && e@
            == "MySQL 服务注册失败: "@ + stderr@),
{
    let cs = chars_of(stderr);
    let exists_text = chars_of("already exists");
    if status_ok || contains_chars(cs.as_slice(), exists_text.as_slice()) {
        Ok(())
    } else {
        Err(concat2("MySQL 服务注册失败: ", stderr))
    }
}

/// The environment of a MySQL install in `mysql_home`, as the steps that write
/// it, in order: `MYSQL_HOME` first, then its `bin` directory on `PATH`. Both
/// can fail, and a failed step ends the install (see `step_next`), so `PATH` is
/// only touched once `MYSQL_HOME` was written.
pub fn configure_env_vars(mysql_home: &str) -> (r: Vec<InstallStep>)
    ensures
        step_views(r@) == seq![
            StepView::SetEnv("MYSQL_HOME"@, mysql_home@),
            StepView::AppendPath(mysql_home@ + "\\bin"@),
        ],
{
    let r = vec![
        InstallStep::SetEnv("MYSQL_HOME", owned(mysql_home)),
        InstallStep::AppendPath(concat2(mysql_home, "\\bin")),
    ];
    assert(step_views(r@) =~= seq![
        StepView::SetEnv("MYSQL_HOME"@, mysql_home@),
        StepView::AppendPath(mysql_home@ + "\\bin"@),
    ]);
    r
}

/// The message that ends a MySQL install on `port`.
pub fn mysql_done_message(version: &str, port: u16) -> (r: String)
    ensures
        r@ == "MySQL "@ + version@ + " 安装完成 (端口: "@ + decimal(port as nat) + ")"@,
{
    let p = u32_to_text(port as u32);
    let head = concat3("MySQL ", version, " 安装完成 (端口: ");
    concat3(head.as_str(), p.as_str(), ")")
}

/// The statement that sets the root password when root may still log in without one.
pub fn root_password_sql(password: &str) -> (r: String)
    ensures
        r@ == "ALTER USER 'root'@'localhost' IDENTIFIED BY '"@ + password@ + "'; FLUSH PRIVILEGES;"@,
{
    concat3("ALTER USER 'root'@'localhost' IDENTIFIED BY '", password, "'; FLUSH PRIVILEGES;")
}

/// The statements that set the root password on a server started with
/// `--skip-grant-tables` (privileges are reloaded first).
pub fn safe_mode_password_sql(password: &str) -> (r: String)
    ensures
        r@ == "FLUSH PRIVILEGES; ALTER USER 'root'@'localhost' IDENTIFIED BY '"@ + password@ + "';"@,
{
    concat3("FLUSH PRIVILEGES; ALTER USER 'root'@'localhost' IDENTIFIED BY '", password, "';")
}

/// The progress message after failed start attempt `attempt` of 3.
pub fn start_retry_message(attempt: u32, stderr: &str) -> (r: String)
    ensures
        r@ == "启动服务重试 "@ + decimal(attempt as nat) + "/3: "@ + trimmed(stderr@),
{
    let n = u32_to_text(attempt);
    let head = concat3("启动服务重试 ", n.as_str(), "/3: ");
    let t = trim_text(stderr);
    concat2(head.as_str(), t.as_str())
}

/// The error when the service did not start after three attempts.
pub fn start_failure() -> (r: String)
    ensures
        r@ == "MySQL 服务启动失败，请手动检查。常见原因：端口被占用、缺少 VC++ 运行库、路径含中文"@,
{
    owned("MySQL 服务启动失败，请手动检查。常见原因：端口被占用、缺少 VC++ 运行库、路径含中文")
}

} // verus!
