//! The daemon and its web front end: how they are started, and what is said of
//! them.
use crate::args::{DaemonArgs, DaemonCommand, DaemonLogsArgs, WebArgs};
use crate::jobs::opt_string;
use crate::json::{flag_member, member, Json};
use crate::lang::{pick, t, Lang};
use crate::layout::capped;
use crate::notes::{labelled, labelled_text};
use crate::remote::{count_or, count_or_zero};
use crate::text::{decimal, decimal_text, join, joined, run_of, spaces, texts};
use crate::width::{visible_width, width_of};
use std::path::PathBuf;
use vstd::prelude::*;
use vstd::string::*;

verus! {

/// The web password as it was given.
#[derive(Debug)]
pub enum PasswordSource {
    Unset,
    Text(String),
    File(PathBuf),
}

/// How the daemon is to be launched.
#[derive(Debug)]
pub struct LaunchPlan {
    pub port: u16,
    pub bind: Option<String>,
    pub password: PasswordSource,
}

/// Nothing was asked for that the daemon would not do by itself.
pub open spec fn asks_nothing(args: WebArgs) -> bool {
    !args.port_explicit && args.bind is None && args.password is None && args.password_file is None
}

/// How the daemon is to be launched for the web front end: nothing special, or
/// with these settings; a password has to have something in it, and not too
/// much.
pub fn web_launch_config(lang: Lang, args: WebArgs) -> (r: Result<Option<LaunchPlan>, String>)
    ensures
        match r {
            Ok(None) => asks_nothing(args),
            Ok(Some(plan)) => {
                &&& !asks_nothing(args)
                &&& plan.port == args.port
                &&& plan.bind == args.bind
                &&& match (args.password, plan.password) {
                    (Some(given), PasswordSource::Text(text)) => text == given && 0 < given@.len()
                        <= 1024,
                    (None, PasswordSource::File(file)) => args.password_file == Some(file),
                    (None, PasswordSource::Unset) => args.password_file is None,
                    _ => false,
                }
            },
            Err(note) => args.password matches Some(given) && if given@.len() == 0 {
                note@ == pick(lang, "WebUI password cannot be empty"@, "WebUI 密码不能为空"@)
            } else {
                given@.len() > 1024 && note@ == pick(
                    lang,
                    "WebUI password cannot exceed 1,024 characters"@,
                    "WebUI 密码不能超过 1,024 个字符"@,
                )
            },
        },
{
    if !args.port_explicit && args.bind.is_none() && args.password.is_none()
        && args.password_file.is_none() {
        return Ok(None);
    }
    let password = match args.password {
        Some(given) => {
            if given.as_str().is_empty() {
                return Err(
                    t(lang, "WebUI password cannot be empty", "WebUI 密码不能为空").to_owned(),
                );
            }
            if given.as_str().unicode_len() > 1_024 {
                return Err(
                    t(
                        lang,
                        "WebUI password cannot exceed 1,024 characters",
                        "WebUI 密码不能超过 1,024 个字符",
                    ).to_owned(),
                );
            }
            PasswordSource::Text(given)
        },
        None => match args.password_file {
            Some(file) => PasswordSource::File(file),
            None => PasswordSource::Unset,
        },
    };
    Ok(Some(LaunchPlan { port: args.port, bind: args.bind, password }))
}

/// What asking for the web front end comes to.
#[derive(Clone, Copy, Debug, PartialEq, Eq, Structural)]
pub enum WebStep {
    /// A daemon of this build runs and its settings stand.
    Refuse,
    /// It runs: say where.
    ShowUrls,
    AskPassword,
    Launch,
}

/// A daemon of this build that runs keeps its settings; an empty password is
/// asked for.
pub fn run_web(args: &WebArgs, running_this_build: bool) -> (r: WebStep)
    ensures
        r == if running_this_build {
            if args.port_explicit || args.password is Some || args.password_file is Some {
                WebStep::Refuse
            } else {
                WebStep::ShowUrls
            }
        } else if opt_string(args.password) == Some(Seq::<char>::empty()) {
            WebStep::AskPassword
        } else {
            WebStep::Launch
        },
{
    if running_this_build {
        if args.port_explicit || args.password.is_some() || args.password_file.is_some() {
            return WebStep::Refuse;
        }
        return WebStep::ShowUrls;
    }
    match &args.password {
        Some(given) => {
            if given.as_str().is_empty() {
                assert(given@ =~= Seq::<char>::empty());
                WebStep::AskPassword
            } else {
                WebStep::Launch
            }
        },
        None => WebStep::Launch,
    }
}

/// Why the settings of a daemon that runs are not changed.
pub fn settings_stand(lang: Lang, from_daemon_command: bool) -> (r: &'static str)
    ensures
        r@ == if from_daemon_command {
            pick(
                lang,
                "the running Laozhou daemon already owns Web settings; use `laozhou daemon restart` to change the port"@,
                "当前 Laozhou daemon 已接管 Web 设置；如需修改端口请使用 `laozhou daemon restart`"@,
            )
        } else {
            pick(
                lang,
                "the running Laozhou daemon already owns Web settings; restart it to change them"@,
                "当前 Laozhou daemon 已接管 Web 设置；如需修改请先重启 daemon"@,
            )
        },
{
    if from_daemon_command {
        t(
            lang,
            "the running Laozhou daemon already owns Web settings; use `laozhou daemon restart` to change the port",
            "当前 Laozhou daemon 已接管 Web 设置；如需修改端口请使用 `laozhou daemon restart`",
        )
    } else {
        t(
            lang,
            "the running Laozhou daemon already owns Web settings; restart it to change them",
            "当前 Laozhou daemon 已接管 Web 设置；如需修改请先重启 daemon",
        )
    }
}

/// What a command about the daemon does.
#[derive(Debug)]
pub enum DaemonStep {
    Start { port: Option<u16> },
    Stop,
    Restart { port: Option<u16> },
    Status,
    Logs(DaemonLogsArgs),
}

/// A command about the daemon, which starts it by default. A port is for a start
/// only, and for one that the running daemon does not stand in the way of.
pub fn run_daemon_command(lang: Lang, args: DaemonArgs, running_this_build: bool) -> (r: Result<
    DaemonStep,
    String,
>)
    ensures
        ({
            let command = match args.command {
                Some(command) => command,
                None => DaemonCommand::Start,
            };
            let takes_port = command is Start || command is Restart;
            match r {
                Ok(step) => {
                    &&& args.port is Some ==> takes_port
                    &&& command is Start && args.port is Some ==> !running_this_build
                    &&& match (command, step) {
                        (DaemonCommand::Start, DaemonStep::Start { port }) => port == args.port,
                        (DaemonCommand::Stop, DaemonStep::Stop) => true,
                        (DaemonCommand::Restart, DaemonStep::Restart { port }) => port == args.port,
                        (DaemonCommand::Status, DaemonStep::Status) => true,
                        (DaemonCommand::Logs(a), DaemonStep::Logs(b)) => a == b,
                        _ => false,
                    }
                },
                Err(note) => {
                    ||| args.port is Some && !takes_port && note@ == pick(
                        lang,
                        "--port only applies to daemon start or restart"@,
                        "--port 仅适用于 daemon start 或 restart"@,
                    )
                    ||| args.port is Some && command is Start && running_this_build && note@
                        == pick(
                        lang,
                        "the running Laozhou daemon already owns Web settings; use `laozhou daemon restart` to change the port"@,
                        "当前 Laozhou daemon 已接管 Web 设置；如需修改端口请使用 `laozhou daemon restart`"@,
                    )
                },
            }
        }),
{
    let command = match args.command {
        Some(command) => command,
        None => DaemonCommand::Start,
    };
    let takes_port = match &command {
        DaemonCommand::Start => true,
        DaemonCommand::Restart => true,
        _ => false,
    };
    if args.port.is_some() && !takes_port {
        return Err(
            t(
                lang,
                "--port only applies to daemon start or restart",
                "--port 仅适用于 daemon start 或 restart",
            ).to_owned(),
        );
    }
    match command {
        DaemonCommand::Start => {
            if args.port.is_some() && running_this_build {
                return Err(settings_stand(lang, true).to_owned());
            }
            Ok(DaemonStep::Start { port: args.port })
        },
        DaemonCommand::Stop => Ok(DaemonStep::Stop),
        DaemonCommand::Restart => Ok(DaemonStep::Restart { port: args.port }),
        DaemonCommand::Status => Ok(DaemonStep::Status),
        DaemonCommand::Logs(logs) => Ok(DaemonStep::Logs(logs)),
    }
}

/// Where a restart of the daemon stands: what is done next.
#[derive(Clone, Copy, Debug, PartialEq, Eq, Structural)]
pub enum RestartPhase {
    /// Write down how to launch, where the port was given or the running daemon
    /// left no record of it.
    Prepare,
    Stop,
    /// Read anew where things are.
    Refresh,
    Launch,
    ShowStatus,
    /// Take back what was written down.
    Discard,
    /// Report the error.
    Fail,
}

/// What follows a phase that failed or not. What was written down for a launch
/// is taken back where there is no launch.
pub open spec fn restart_follows(phase: RestartPhase, prepared: bool, failed: bool) -> RestartPhase {
    let undo = if prepared {
        RestartPhase::Discard
    } else {
        RestartPhase::Fail
    };
    match phase {
        RestartPhase::Prepare => if failed {
            RestartPhase::Fail
        } else {
            RestartPhase::Stop
        },
        RestartPhase::Stop => if failed {
            undo
        } else {
            RestartPhase::Refresh
        },
        RestartPhase::Refresh => if failed {
            undo
        } else {
            RestartPhase::Launch
        },
        RestartPhase::Launch => if failed {
            undo
        } else {
            RestartPhase::ShowStatus
        },
        RestartPhase::ShowStatus => RestartPhase::ShowStatus,
        RestartPhase::Discard => RestartPhase::Fail,
        RestartPhase::Fail => RestartPhase::Fail,
    }
}

pub fn restart_next(phase: RestartPhase, prepared: bool, failed: bool) -> (r: RestartPhase)
    ensures
        r == restart_follows(phase, prepared, failed),
{
    let undo = if prepared {
        RestartPhase::Discard
    } else {
        RestartPhase::Fail
    };
    match phase {
        RestartPhase::Prepare => if failed {
            RestartPhase::Fail
        } else {
            RestartPhase::Stop
        },
        RestartPhase::Stop => if failed {
            undo
        } else {
            RestartPhase::Refresh
        },
        RestartPhase::Refresh => if failed {
            undo
        } else {
            RestartPhase::Launch
        },
        RestartPhase::Launch => if failed {
            undo
        } else {
            RestartPhase::ShowStatus
        },
        RestartPhase::ShowStatus => RestartPhase::ShowStatus,
        RestartPhase::Discard => RestartPhase::Fail,
        RestartPhase::Fail => RestartPhase::Fail,
    }
}

/// The phases that a restart goes through, the n-th phase failing where
/// `failures[n]`.
pub open spec fn restart_path(prepared: bool, failures: Seq<bool>) -> Seq<RestartPhase>
    decreases failures.len(),
{
    if failures.len() == 0 {
        seq![RestartPhase::Prepare]
    } else {
        let before = restart_path(prepared, failures.drop_last());
        before.push(restart_follows(before.last(), prepared, failures.last()))
    }
}

/// Nothing is left behind by a restart that fails once a launch was prepared:
/// whenever it reports an error that came later than the preparation, what was
/// prepared has been taken back. And a restart that succeeds takes nothing back.
pub proof fn law_failed_restart_leaves_nothing(prepared: bool, failures: Seq<bool>)
    requires
        failures.len() > 0,
    ensures
        ({
            let path = restart_path(prepared, failures);
            &&& prepared && !failures[0] && path.last() is Fail ==> path.contains(
                RestartPhase::Discard,
            )
            &&& path.last() is ShowStatus ==> !path.contains(RestartPhase::Discard)
        }),
{
    lemma_restart_path(prepared, failures);
}

proof fn lemma_restart_path(prepared: bool, failures: Seq<bool>)
    ensures
        ({
            let path = restart_path(prepared, failures);
            &&& path.len() == failures.len() + 1
            &&& prepared && failures.len() > 0 && !failures[0] && path.last() is Fail
                ==> path.contains(RestartPhase::Discard)
            &&& path.last() is ShowStatus ==> !path.contains(RestartPhase::Discard)
            &&& path.contains(RestartPhase::Discard) ==> path.last() is Discard || path.last() is Fail
            &&& prepared && failures.len() > 0 && !failures[0] && !(path.last() is Fail)
                && !(path.last() is Discard) ==> !path.contains(RestartPhase::Fail)
            &&& failures.len() > 0 && !failures[0] ==> !(path.last() is Prepare)
            &&& failures.len() > 0 && failures[0] ==> path.last() is Fail
        }),
    decreases failures.len(),
{
    if failures.len() > 0 {
        let fewer = failures.drop_last();
        lemma_restart_path(prepared, fewer);
        let before = restart_path(prepared, fewer);
        let path = restart_path(prepared, failures);
        assert(path.drop_last() =~= before);
        assert forall|phase: RestartPhase| #[trigger] path.contains(phase) <==> (before.contains(phase)
            || path.last() == phase) by {
            if before.contains(phase) {
                let k = choose|k: int| 0 <= k < before.len() && before[k] == phase;
                assert(path[k] == phase);
            }
            if path.last() == phase {
                assert(path[path.len() - 1] == phase);
            }
            if path.contains(phase) {
                let k = choose|k: int| 0 <= k < path.len() && path[k] == phase;
                if k < before.len() {
                    assert(before[k] == phase);
                }
            }
        }
    } else {
        let path = restart_path(prepared, failures);
        assert(path =~= seq![RestartPhase::Prepare]);
    }
}

/// The addresses behind a label, one below the other.
pub open spec fn web_status_lines(label: Seq<char>, urls: Seq<Seq<char>>) -> Seq<Seq<char>> {
    if urls.len() == 0 {
        seq![label]
    } else {
        Seq::new(
            urls.len(),
            |i: int|
                if i == 0 {
                    label + " "@ + urls[0]
                } else {
                    run_of(' ', (capped(width_of(label) as int, usize::MAX - 1) + 1) as nat)
                        + urls[i]
                },
        )
    }
}

pub fn daemon_web_status_lines(label: &str, urls: &Vec<String>) -> (r: Vec<String>)
    ensures
        texts(r@) == web_status_lines(label@, texts(urls@)),
{
    let mut out: Vec<String> = Vec::new();
    if urls.is_empty() {
        out.push(label.to_owned());
        assert(texts(out@) =~= web_status_lines(label@, texts(urls@)));
        return out;
    }
    let indent = spaces(visible_width(label).saturating_add(1));
    let mut first = label.to_owned();
    first.append(" ");
    first.append(urls[0].as_str());
    out.push(first);
    let mut i: usize = 1;
    while i < urls.len()
        invariant
            1 <= i <= urls@.len(),
            out@.len() == i,
            out@[0]@ == label@ + " "@ + urls@[0]@,
            indent@ == run_of(
                ' ',
                (capped(width_of(label@) as int, usize::MAX - 1) + 1) as nat,
            ),
            forall|k: int| 1 <= k < i ==> (#[trigger] out@[k])@ == indent@ + urls@[k]@,
        decreases urls@.len() - i,
    {
        let mut line = indent.clone();
        line.append(urls[i].as_str());
        out.push(line);
        i = i + 1;
    }
    assert(texts(out@) =~= web_status_lines(label@, texts(urls@)));
    out
}

/// A whole number as text.
pub open spec fn signed_decimal(n: int) -> Seq<char> {
    if n < 0 {
        "-"@ + decimal((-n) as nat)
    } else {
        decimal(n as nat)
    }
}

/// The accounts among the first `n` values: the whole numbers.
pub open spec fn accounts_among(values: Seq<Json>, n: int) -> Seq<Seq<char>>
    decreases n,
{
    if n <= 0 {
        Seq::empty()
    } else {
        let before = accounts_among(values, n - 1);
        match values[n - 1] {
            Json::Unsigned(v) => if v <= i64::MAX {
                before.push(signed_decimal(v as int))
            } else {
                before
            },
            Json::Negative(v) => before.push(signed_decimal(v as int)),
            _ => before,
        }
    }
}

pub open spec fn accounts_of(qq: Json) -> Seq<Seq<char>> {
    match member(qq, "connected_accounts"@) {
        Some(Json::Array(values)) => accounts_among(values@, values@.len() as int),
        _ => Seq::empty(),
    }
}

fn account_texts(values: &Vec<Json>) -> (r: Vec<String>)
    ensures
        texts(r@) == accounts_among(values@, values@.len() as int),
{
    let mut out: Vec<String> = Vec::new();
    let mut i: usize = 0;
    assert(texts(out@) =~= accounts_among(values@, 0));
    while i < values.len()
        invariant
            i <= values@.len(),
            texts(out@) == accounts_among(values@, i as int),
        decreases values@.len() - i,
    {
        let text = match &values[i] {
            Json::Unsigned(v) => if *v <= 0x7fff_ffff_ffff_ffff {
                Some(decimal_text(*v))
            } else {
                None
            },
            Json::Negative(v) => Some(signed_text(*v)),
            _ => None,
        };
        if let Some(text) = text {
            proof {
                crate::text::lemma_texts_push(out@, text);
            }
            out.push(text);
        }
        i = i + 1;
    }
    out
}

fn signed_text(n: i64) -> (r: String)
    ensures
        r@ == signed_decimal(n as int),
{
    if n < 0 {
        let size: u64 = (-(n as i128)) as u64;
        let digits = decimal_text(size);
        let mut r = "-".to_owned();
        r.append(digits.as_str());
        r
    } else {
        decimal_text(n as u64)
    }
}

/// A member of a member.
pub open spec fn inner_member(data: Json, outer: Seq<char>, inner: Seq<char>) -> Option<Json> {
    match member(data, outer) {
        Some(value) => member(value, inner),
        None => None,
    }
}

/// What is said of the engine that runs the turns.
pub open spec fn engine_line(lang: Lang, data: Json) -> Seq<char> {
    pick(lang, "Turn engine:"@, "TurnEngine："@) + " "@ + match inner_member(
        data,
        "runtime"@,
        "turn_engine"@,
    ) {
        Some(Json::Text(text)) => text@,
        _ => "ready"@,
    }
}

/// What is said of the chat platform.
pub open spec fn qq_line(lang: Lang, data: Json) -> Seq<char> {
    let name = pick(lang, "Tencent QQ:"@, "腾讯 QQ："@);
    match inner_member(data, "platforms"@, "qq"@) {
        Some(qq) => if flag_member(qq, "enabled"@) {
            name + " ws://localhost:"@ + decimal(count_or_zero(qq, "listen_port"@) as nat)
                + "/ws · "@ + if accounts_of(qq).len() == 0 {
                pick(lang, "not connected"@, "尚未连接"@)
            } else {
                labelled(pick(lang, "connected"@, "已连接"@), joined(accounts_of(qq), ", "@))
            }
        } else {
            name + " "@ + pick(lang, "disabled"@, "未启用"@)
        },
        None => name + " "@ + pick(lang, "disabled"@, "未启用"@),
    }
}

fn engine_text(lang: Lang, data: &Json) -> (r: String)
    ensures
        r@ == engine_line(lang, *data),
{
    let mut line = t(lang, "Turn engine:", "TurnEngine：").to_owned();
    line.append(" ");
    let engine = match data.get("runtime") {
        Some(runtime) => match runtime.get("turn_engine") {
            Some(Json::Text(text)) => text.as_str(),
            _ => "ready",
        },
        None => "ready",
    };
    line.append(engine);
    line
}

fn qq_text(lang: Lang, data: &Json) -> (r: String)
    ensures
        r@ == qq_line(lang, *data),
{
    let mut line = t(lang, "Tencent QQ:", "腾讯 QQ：").to_owned();
    let qq = match data.get("platforms") {
        Some(platforms) => platforms.get("qq"),
        None => None,
    };
    match qq {
        Some(qq) => {
            if !qq.flag("enabled") {
                line.append(" ");
                line.append(t(lang, "disabled", "未启用"));
                return line;
            }
            let port = decimal_text(count_or(qq, "listen_port"));
            let accounts = match qq.get("connected_accounts") {
                Some(Json::Array(values)) => account_texts(values),
                _ => Vec::new(),
            };
            assert(texts(accounts@) =~= accounts_of(*qq));
            assert(texts(accounts@).len() == accounts@.len());
            line.append(" ws://localhost:");
            line.append(port.as_str());
            line.append("/ws · ");
            if accounts.is_empty() {
                line.append(t(lang, "not connected", "尚未连接"));
            } else {
                let list = join(accounts.as_slice(), ", ");
                let connection = labelled_text(t(lang, "connected", "已连接"), list.as_str());
                line.append(connection.as_str());
            }
            line
        },
        None => {
            line.append(" ");
            line.append(t(lang, "disabled", "未启用"));
            line
        },
    }
}

/// What is said of a daemon that runs.
pub open spec fn status_lines(lang: Lang, pid: u32, urls: Seq<Seq<char>>, data: Json) -> Seq<Seq<char>> {
    seq![
        pick(lang, "Laozhou daemon:"@, "Laozhou daemon："@) + " "@ + pick(
            lang,
            "running"@,
            "运行中"@,
        ) + " (PID "@ + decimal(pid as nat) + ")"@,
    ] + web_status_lines(pick(lang, "WebUI:"@, "WebUI："@), urls) + seq![
        engine_line(lang, data),
        qq_line(lang, data),
    ]
}

pub fn print_daemon_status(lang: Lang, pid: u32, urls: &Vec<String>, data: &Json) -> (r: Vec<String>)
    ensures
        texts(r@) == status_lines(lang, pid, texts(urls@), *data),
{
    let number = decimal_text(pid as u64);
    let mut head = t(lang, "Laozhou daemon:", "Laozhou daemon：").to_owned();
    head.append(" ");
    head.append(t(lang, "running", "运行中"));
    head.append(" (PID ");
    head.append(number.as_str());
    head.append(")");
    let mut out: Vec<String> = Vec::new();
    out.push(head);
    let mut web = daemon_web_status_lines(t(lang, "WebUI:", "WebUI："), urls);
    let ghost web_lines = web@;
    out.append(&mut web);
    out.push(engine_text(lang, data));
    out.push(qq_text(lang, data));
    assert(texts(out@) =~= seq![head@] + texts(web_lines) + seq![
        engine_line(lang, *data),
        qq_line(lang, *data),
    ]);
    out
}

/// The daemon is launched as it was asked for; where nothing was, it is launched
/// as it is. A password must not be empty, nor longer than 1024 characters.
pub proof fn law_web_settings_are_handed_on(
    lang: Lang,
    args: WebArgs,
    r: Result<Option<LaunchPlan>, String>,
)
    requires
        call_ensures(web_launch_config, (lang, args), r),
    ensures
        args.password matches Some(given) ==> (r is Err <==> given@.len() == 0 || given@.len()
            > 1024),
        args.password is None ==> r is Ok,
        r == Ok::<Option<LaunchPlan>, String>(None) ==> !args.port_explicit && args.bind is None
            && args.password is None && args.password_file is None,
        args.password is None && (args.port_explicit || args.bind is Some || args.password_file
            is Some) ==> r->Ok_0 is Some && r->Ok_0->0.port == args.port && r->Ok_0->0.bind
            == args.bind,
        args.password matches Some(given) ==> 0 < given@.len() <= 1024 ==> r->Ok_0 is Some
            && r->Ok_0->0.password == PasswordSource::Text(given),
        args.password is None && args.password_file is Some ==> r->Ok_0->0.password
            == PasswordSource::File(args.password_file->0),
{
}

/// A daemon of this build that runs keeps its settings: new ones are refused.
pub proof fn law_running_daemon_keeps_its_settings(args: &WebArgs, running: bool, r: WebStep)
    requires
        call_ensures(run_web, (args, running), r),
    ensures
        running ==> r is Refuse || r is ShowUrls,
        running && (args.port_explicit || args.password is Some || args.password_file is Some)
            <==> r is Refuse,
        !running ==> r is AskPassword || r is Launch,
        !running && args.password is None ==> r is Launch,
        args.password matches Some(given) ==> !running ==> (r is AskPassword <==> given@.len() == 0),
{
    if let Some(given) = args.password {
        assert(given@.len() == 0 ==> given@ =~= Seq::<char>::empty());
    }
}

/// A command about the daemon does what it names; without one the daemon is
/// started. A port goes with a start or a restart alone, and with no start of a
/// daemon that runs.
pub proof fn law_daemon_commands(
    lang: Lang,
    args: DaemonArgs,
    running: bool,
    r: Result<DaemonStep, String>,
)
    requires
        call_ensures(run_daemon_command, (lang, args, running), r),
    ensures
        args.command is None && args.port is None ==> r is Ok && r->Ok_0 == (DaemonStep::Start {
            port: None,
        }),
        args.command == Some(DaemonCommand::Stop) ==> (r is Ok <==> args.port is None),
        args.command == Some(DaemonCommand::Stop) && r is Ok ==> r->Ok_0 is Stop,
        args.command == Some(DaemonCommand::Status) && args.port is None ==> r is Ok && r->Ok_0
            is Status,
        args.command == Some(DaemonCommand::Restart) ==> r is Ok && r->Ok_0
            == (DaemonStep::Restart { port: args.port }),
        args.command == Some(DaemonCommand::Start) ==> (r is Err <==> args.port is Some && running),
        args.command == Some(DaemonCommand::Start) && r is Ok ==> r->Ok_0 == (DaemonStep::Start {
            port: args.port,
        }),
        args.command matches Some(DaemonCommand::Logs(wanted)) ==> args.port is None ==> r is Ok
            && r->Ok_0 == DaemonStep::Logs(wanted),
{
}

/// A restart stops the daemon before it launches one, and goes on only where the
/// step before it worked.
pub proof fn law_restart_goes_step_by_step(phase: RestartPhase, prepared: bool, failed: bool, r: RestartPhase)
    requires
        call_ensures(restart_next, (phase, prepared, failed), r),
    ensures
        phase is Prepare && !failed ==> r is Stop,
        phase is Stop && !failed ==> r is Refresh,
        phase is Refresh && !failed ==> r is Launch,
        phase is Launch && !failed ==> r is ShowStatus,
        r is Launch ==> phase is Refresh && !failed,
        r is Stop ==> phase is Prepare && !failed,
        failed && phase is Prepare ==> r is Fail,
        failed && prepared && (phase is Stop || phase is Refresh || phase is Launch) ==> r is Discard,
        failed && !prepared && (phase is Stop || phase is Refresh || phase is Launch) ==> r is Fail,
        phase is Discard ==> r is Fail,
{
}

/// The status of a daemon names its process and each of its addresses.
pub proof fn law_status_names_the_daemon(
    lang: Lang,
    pid: u32,
    urls: &Vec<String>,
    data: &Json,
    r: Vec<String>,
)
    requires
        call_ensures(print_daemon_status, (lang, pid, urls, data), r),
        urls@.len() > 0,
    ensures
        r@.len() == urls@.len() + 3,
        r@[0]@ == pick(lang, "Laozhou daemon:"@, "Laozhou daemon："@) + " "@ + pick(
            lang,
            "running"@,
            "运行中"@,
        ) + " (PID "@ + decimal(pid as nat) + ")"@,
        r@[1]@ == pick(lang, "WebUI:"@, "WebUI："@) + " "@ + urls@[0]@,
        member(*data, "platforms"@) is None ==> r@[r@.len() - 1]@ == pick(
            lang,
            "Tencent QQ:"@,
            "腾讯 QQ："@,
        ) + " "@ + pick(lang, "disabled"@, "未启用"@),
        member(*data, "runtime"@) is None ==> r@[r@.len() - 2]@ == pick(
            lang,
            "Turn engine:"@,
            "TurnEngine："@,
        ) + " "@ + "ready"@,
{
    let n = r@.len() as int;
    assert(texts(r@).len() == n);
    assert(texts(urls@).len() == urls@.len());
    assert(texts(urls@)[0] == urls@[0]@);
    assert(texts(r@)[0] == r@[0]@);
    assert(texts(r@)[1] == r@[1]@);
    assert(texts(r@)[n - 1] == r@[n - 1]@);
    assert(texts(r@)[n - 2] == r@[n - 2]@);
}

/// A platform that is switched on is shown with its port and the accounts that
/// are connected to it.
pub proof fn law_platform_is_shown_with_its_accounts(lang: Lang, data: Json, platforms: Json, qq: Json, port: u64)
    requires
        member(data, "platforms"@) == Some(platforms),
        member(platforms, "qq"@) == Some(qq),
        member(qq, "listen_port"@) == Some(Json::Unsigned(port)),
    ensures
        member(qq, "enabled"@) == Some(Json::Bool(true)) && member(qq, "connected_accounts"@) is None
            ==> qq_line(lang, data) == pick(lang, "Tencent QQ:"@, "腾讯 QQ："@)
            + " ws://localhost:"@ + decimal(port as nat) + "/ws · "@ + pick(
            lang,
            "not connected"@,
            "尚未连接"@,
        ),
        member(qq, "enabled"@) == Some(Json::Bool(false)) ==> qq_line(lang, data) == pick(
            lang,
            "Tencent QQ:"@,
            "腾讯 QQ："@,
        ) + " "@ + pick(lang, "disabled"@, "未启用"@),
{
}

} // verus!
