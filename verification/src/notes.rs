//! The one-line notes that commands leave behind, for the prompt and for the
//! command line.
use crate::echo::{dim, dim_text, enclosed, red, red_text};
use crate::jobs::opt_text;
use crate::lang::{pick, t, Lang};
use crate::session::{display_session_name, shown_name};
use crate::text::{decimal, decimal_text, joined, join, texts, trim, trimmed};
use vstd::prelude::*;
use vstd::string::*;

verus! {

/// What a figure or a name is of, and the figure or name.
pub open spec fn labelled(label: Seq<char>, text: Seq<char>) -> Seq<char> {
    label + ": "@ + text
}

pub fn labelled_text(label: &str, text: &str) -> (r: String)
    ensures
        r@ == labelled(label@, text@),
{
    enclosed(label, ": ", text)
}

/// A faint note with an empty line behind it.
pub open spec fn dim_note(text: Seq<char>) -> Seq<char> {
    dim(text) + "\n"@
}

pub fn dim_note_text(text: &str) -> (r: String)
    ensures
        r@ == dim_note(text@),
{
    let mut r = dim_text(text);
    r.append("\n");
    r
}

/// A note of a failure with an empty line behind it.
pub open spec fn red_note(text: Seq<char>) -> Seq<char> {
    red(text) + "\n"@
}

pub fn red_note_text(text: &str) -> (r: String)
    ensures
        r@ == red_note(text@),
{
    let mut r = red_text(text);
    r.append("\n");
    r
}

/// A plain note with an empty line behind it.
pub fn plain_note_text(text: &str) -> (r: String)
    ensures
        r@ == text@ + "\n"@,
{
    let mut r = text.to_owned();
    r.append("\n");
    r
}

/// What went wrong.
pub open spec fn error_of(lang: Lang, message: Seq<char>) -> Seq<char> {
    labelled(pick(lang, "error"@, "错误"@), message)
}

pub fn error_text(lang: Lang, message: &str) -> (r: String)
    ensures
        r@ == error_of(lang, message@),
{
    labelled_text(t(lang, "error", "错误"), message)
}

/// The workspace of a session, or that it has none.
pub open spec fn workspace_note(lang: Lang, workspace: Option<Seq<char>>) -> Seq<char> {
    match workspace {
        Some(path) => labelled(pick(lang, "session workspace"@, "会话工作目录"@), path),
        None => pick(
            lang,
            "no workspace bound; using the client working directory"@,
            "未绑定工作目录；使用客户端当前目录"@,
        ),
    }
}

pub fn workspace_note_text(lang: Lang, workspace: Option<&str>) -> (r: String)
    ensures
        r@ == workspace_note(lang, opt_text(workspace)),
{
    match workspace {
        Some(path) => labelled_text(t(lang, "session workspace", "会话工作目录"), path),
        None => t(
            lang,
            "no workspace bound; using the client working directory",
            "未绑定工作目录；使用客户端当前目录",
        ).to_owned(),
    }
}

pub fn workspace_bound_text(lang: Lang, path: &str) -> (r: String)
    ensures
        r@ == labelled(pick(lang, "workspace bound"@, "已绑定工作目录"@), path@),
{
    labelled_text(t(lang, "workspace bound", "已绑定工作目录"), path)
}

/// A path that is no workspace, and why.
pub open spec fn invalid_path(lang: Lang, arg: Seq<char>, error: Seq<char>) -> Seq<char> {
    labelled(pick(lang, "invalid workspace path"@, "无效的工作目录路径"@), arg) + " ("@ + error
        + ")"@
}

pub fn invalid_path_text(lang: Lang, arg: &str, error: &str) -> (r: String)
    ensures
        r@ == invalid_path(lang, arg@, error@),
{
    let mut r = labelled_text(t(lang, "invalid workspace path", "无效的工作目录路径"), arg);
    r.append(" (");
    r.append(error);
    r.append(")");
    r
}

pub fn renamed_text(lang: Lang, name: &str) -> (r: String)
    ensures
        r@ == labelled(pick(lang, "session renamed"@, "会话已重命名"@), name@),
{
    labelled_text(t(lang, "session renamed", "会话已重命名"), name)
}

/// What a new session is called on the command line.
pub fn run_session_new(lang: Lang, name: &str) -> (r: String)
    ensures
        r@ == labelled(
            pick(lang, "created and switched to session"@, "已创建并切换到会话"@),
            shown_name(lang, name@),
        ),
{
    labelled_text(
        t(lang, "created and switched to session", "已创建并切换到会话"),
        display_session_name(lang, name),
    )
}

pub open spec fn switched(lang: Lang, name: Seq<char>) -> Seq<char> {
    labelled(pick(lang, "switched to session"@, "已切换到会话"@), shown_name(lang, name))
}

pub fn switched_text(lang: Lang, name: &str) -> (r: String)
    ensures
        r@ == switched(lang, name@),
{
    labelled_text(t(lang, "switched to session", "已切换到会话"), display_session_name(lang, name))
}

/// The name for a session, or how to give one.
pub fn run_session_rename(lang: Lang, name: &str) -> (r: Result<String, String>)
    ensures
        match r {
            Ok(clean) => trimmed(name@).len() > 0 && clean@ == trimmed(name@),
            Err(note) => trimmed(name@).len() == 0 && note@ == pick(
                lang,
                "usage: laozhou rename <name>"@,
                "用法：laozhou rename <新名称>"@,
            ),
        },
{
    let clean = trim(name);
    if clean.is_empty() {
        Err(t(lang, "usage: laozhou rename <name>", "用法：laozhou rename <新名称>").to_owned())
    } else {
        Ok(clean.to_owned())
    }
}

/// The two lines behind the end of a session: what became of it, and which
/// session came in its place.
pub open spec fn ended_session(lang: Lang, deleted: bool, next: Seq<char>) -> Seq<Seq<char>> {
    seq![
        if deleted {
            pick(lang, "session deleted"@, "会话已删除"@)
        } else {
            pick(lang, "session archived"@, "当前会话已归档"@)
        },
        switched(lang, next),
    ]
}

fn ended_session_lines(lang: Lang, deleted: bool, next: &str) -> (r: Vec<String>)
    ensures
        texts(r@) == ended_session(lang, deleted, next@),
{
    let first = if deleted {
        t(lang, "session deleted", "会话已删除")
    } else {
        t(lang, "session archived", "当前会话已归档")
    };
    let mut r: Vec<String> = Vec::new();
    r.push(first.to_owned());
    r.push(switched_text(lang, next));
    assert(texts(r@) =~= ended_session(lang, deleted, next@));
    r
}

pub fn run_session_archive(lang: Lang, next: &str) -> (r: Vec<String>)
    ensures
        texts(r@) == ended_session(lang, false, next@),
{
    ended_session_lines(lang, false, next)
}

pub fn run_session_delete(lang: Lang, confirmed: bool, next: &str) -> (r: Vec<String>)
    ensures
        texts(r@) == if confirmed {
            ended_session(lang, true, next@)
        } else {
            seq![pick(lang, "cancelled"@, "已取消"@)]
        },
{
    if confirmed {
        return ended_session_lines(lang, true, next);
    }
    let mut r: Vec<String> = Vec::new();
    r.push(t(lang, "cancelled", "已取消").to_owned());
    assert(texts(r@) =~= seq![pick(lang, "cancelled"@, "已取消"@)]);
    r
}

/// A question that only a yes answers.
pub open spec fn yes_no(prompt: Seq<char>) -> Seq<char> {
    prompt + " [y/N] "@
}

pub fn confirm_text(prompt: &str) -> (r: String)
    ensures
        r@ == yes_no(prompt@),
{
    let mut r = prompt.to_owned();
    r.append(" [y/N] ");
    r
}

pub fn wipe_summary(lang: Lang) -> (r: &'static str)
    ensures
        r@ == pick(
            lang,
            "This erases everything Laozhou has accumulated: memory, every conversation's contents, group-chat contexts, and auto-generated skills. It cannot be undone."@,
            "这会抹掉 Laozhou 积累的一切：记忆、所有会话的内容、群聊上下文、自动生成的技能。不可撤销。"@,
        ),
{
    t(
        lang,
        "This erases everything Laozhou has accumulated: memory, every conversation's contents, group-chat contexts, and auto-generated skills. It cannot be undone.",
        "这会抹掉 Laozhou 积累的一切：记忆、所有会话的内容、群聊上下文、自动生成的技能。不可撤销。",
    )
}

pub fn print_wipe_message(lang: Lang) -> (r: &'static str)
    ensures
        r@ == pick(
            lang,
            "erased all conversations, QQ contexts, memory, and generated skills for the current persona"@,
            "已抹掉当前人格的全部会话内容、QQ 上下文、记忆和自动技能"@,
        ),
{
    t(
        lang,
        "erased all conversations, QQ contexts, memory, and generated skills for the current persona",
        "已抹掉当前人格的全部会话内容、QQ 上下文、记忆和自动技能",
    )
}

/// Whether a wipe has to be confirmed, goes ahead, or cannot be asked for.
#[derive(Clone, Copy, Debug, PartialEq, Eq, Structural)]
pub enum WipeStep {
    Confirm,
    Wipe,
    NeedsTerminal,
}

pub fn run_wipe(assume_yes: bool, stdin_is_terminal: bool) -> (r: WipeStep)
    ensures
        r == if assume_yes {
            WipeStep::Wipe
        } else if stdin_is_terminal {
            WipeStep::Confirm
        } else {
            WipeStep::NeedsTerminal
        },
{
    if assume_yes {
        WipeStep::Wipe
    } else if stdin_is_terminal {
        WipeStep::Confirm
    } else {
        WipeStep::NeedsTerminal
    }
}

pub fn print_reset_message(lang: Lang) -> (r: String)
    ensures
        r@ == dim_note(pick(lang, "cleared current conversation history"@, "已清空当前会话历史"@)),
{
    dim_note_text(t(lang, "cleared current conversation history", "已清空当前会话历史"))
}

/// The words of the command line as one message.
pub fn join_message(parts: Vec<String>) -> (r: String)
    ensures
        r@ == trimmed(joined(texts(parts@), " "@)),
{
    let whole = join(parts.as_slice(), " ");
    trim(whole.as_str()).to_owned()
}

/// The count of something, behind what it is of.
pub open spec fn counted_label(label: Seq<char>, n: u64) -> Seq<char> {
    labelled(label, decimal(n as nat))
}

pub fn counted_label_text(label: &str, n: u64) -> (r: String)
    ensures
        r@ == counted_label(label@, n),
{
    let number = decimal_text(n);
    labelled_text(label, number.as_str())
}

/// That background work was stopped.
pub open spec fn stopped_work(lang: Lang, n: u64, what_en: Seq<char>, what_zh: Seq<char>) -> Seq<char> {
    pick(lang, "stopped "@, "已停止 "@) + decimal(n as nat) + pick(lang, what_en, what_zh)
}

pub fn stopped_work_text(lang: Lang, n: u64, what_en: &'static str, what_zh: &'static str) -> (r:
    String)
    ensures
        r@ == stopped_work(lang, n, what_en@, what_zh@),
{
    let number = decimal_text(n);
    enclosed(t(lang, "stopped ", "已停止 "), number.as_str(), t(lang, what_en, what_zh))
}

/// A label stands before a colon; notes end in a line feed, faint, red or plain.
pub proof fn law_notes_have_their_form(
    lang: Lang,
    label: &str,
    text: &str,
    labelled_note: String,
    faint: String,
    failure: String,
    plain: String,
    error: String,
)
    requires
        call_ensures(labelled_text, (label, text), labelled_note),
        call_ensures(dim_note_text, (text,), faint),
        call_ensures(red_note_text, (text,), failure),
        call_ensures(plain_note_text, (text,), plain),
        call_ensures(error_text, (lang, text), error),
    ensures
        labelled_note@ == label@ + ": "@ + text@,
        faint@ == "\x1b[2m"@ + text@ + "\x1b[0m"@ + "\n"@,
        failure@ == "\x1b[31m"@ + text@ + "\x1b[0m"@ + "\n"@,
        plain@ == text@ + "\n"@,
        lang is En ==> error@ == "error"@ + ": "@ + text@,
        lang is Zh ==> error@ == "错误"@ + ": "@ + text@,
{
}

/// A workspace is named, or it is said that there is none; a path that is none is
/// named with the reason.
pub proof fn law_workspaces_are_named(
    lang: Lang,
    workspace: Option<&str>,
    note: String,
    path: &str,
    bound: String,
    reason: &str,
    invalid: String,
)
    requires
        call_ensures(workspace_note_text, (lang, workspace), note),
        call_ensures(workspace_bound_text, (lang, path), bound),
        call_ensures(invalid_path_text, (lang, path, reason), invalid),
    ensures
        workspace matches Some(given) ==> note@ == pick(
            lang,
            "session workspace"@,
            "会话工作目录"@,
        ) + ": "@ + given@,
        workspace is None ==> note@ == pick(
            lang,
            "no workspace bound; using the client working directory"@,
            "未绑定工作目录；使用客户端当前目录"@,
        ),
        bound@ == pick(lang, "workspace bound"@, "已绑定工作目录"@) + ": "@ + path@,
        invalid@ == pick(lang, "invalid workspace path"@, "无效的工作目录路径"@) + ": "@ + path@
            + " ("@ + reason@ + ")"@,
{
}

/// What became of a session is said with its name.
pub proof fn law_sessions_are_spoken_of(
    lang: Lang,
    name: &str,
    renamed: String,
    created: String,
    changed: String,
    archived: Vec<String>,
    confirmed: bool,
    deleted: Vec<String>,
)
    requires
        call_ensures(renamed_text, (lang, name), renamed),
        call_ensures(run_session_new, (lang, name), created),
        call_ensures(switched_text, (lang, name), changed),
        call_ensures(run_session_archive, (lang, name), archived),
        call_ensures(run_session_delete, (lang, confirmed, name), deleted),
    ensures
        renamed@ == pick(lang, "session renamed"@, "会话已重命名"@) + ": "@ + name@,
        created@ == pick(lang, "created and switched to session"@, "已创建并切换到会话"@) + ": "@
            + shown_name(lang, name@),
        changed@ == pick(lang, "switched to session"@, "已切换到会话"@) + ": "@ + shown_name(
            lang,
            name@,
        ),
        archived@.len() == 2 && archived@[0]@ == pick(lang, "session archived"@, "当前会话已归档"@)
            && archived@[1]@ == changed@,
        confirmed ==> deleted@.len() == 2 && deleted@[0]@ == pick(
            lang,
            "session deleted"@,
            "会话已删除"@,
        ) && deleted@[1]@ == changed@,
        !confirmed ==> deleted@.len() == 1 && deleted@[0]@ == pick(lang, "cancelled"@, "已取消"@),
{
    assert(texts(archived@).len() == archived@.len());
    assert(texts(deleted@).len() == deleted@.len());
    assert(texts(archived@)[0] == archived@[0]@ && texts(archived@)[1] == archived@[1]@);
    assert(texts(deleted@)[0] == deleted@[0]@);
    if confirmed {
        assert(texts(deleted@)[1] == deleted@[1]@);
    }
}

/// A session is renamed to what is left of the name without white space around
/// it, and not to a blank one.
pub proof fn law_blank_names_are_refused(lang: Lang, name: &str, r: Result<String, String>)
    requires
        call_ensures(run_session_rename, (lang, name), r),
    ensures
        r is Ok <==> trimmed(name@).len() > 0,
        r is Ok ==> r->Ok_0@ == trimmed(name@),
{
}

/// A wipe goes ahead without a question only where that was asked for, and is
/// refused where nobody can be asked.
pub proof fn law_wipes_are_confirmed(assume_yes: bool, terminal: bool, r: WipeStep)
    requires
        call_ensures(run_wipe, (assume_yes, terminal), r),
    ensures
        r is Wipe <==> assume_yes,
        r is Confirm <==> !assume_yes && terminal,
        r is NeedsTerminal <==> !assume_yes && !terminal,
{
}

/// The words of a command line are one message with a space between each two; a
/// question offers yes and no; counts stand behind what they are of.
pub proof fn law_lines_are_put_together(
    parts: Vec<String>,
    message: String,
    prompt: &str,
    question: String,
    label: &str,
    n: u64,
    counted: String,
    lang: Lang,
    en: &'static str,
    zh: &'static str,
    stopped: String,
)
    requires
        call_ensures(join_message, (parts,), message),
        call_ensures(confirm_text, (prompt,), question),
        call_ensures(counted_label_text, (label, n), counted),
        call_ensures(stopped_work_text, (lang, n, en, zh), stopped),
    ensures
        message@ == trimmed(joined(texts(parts@), " "@)),
        question@ == prompt@ + " [y/N] "@,
        counted@ == label@ + ": "@ + decimal(n as nat),
        lang is En ==> stopped@ == "stopped "@ + decimal(n as nat) + en@,
        lang is Zh ==> stopped@ == "已停止 "@ + decimal(n as nat) + zh@,
{
}

} // verus!
