//! The slash commands of the prompt: one table drives completion, help and
//! dispatch.
use crate::lang::{pick, t, Lang};
use crate::text::{
    begins_with, is_white_space, join, joined, lower, lower_char, lowercase, run_of, same, spaces, starts_with,
    texts, to_chars,
};
use crate::width::{truncate_visible_width, truncated, width_of};
use vstd::prelude::*;
use vstd::string::*;

verus! {

/// Identity of a slash command.
#[derive(Clone, Copy, Debug, PartialEq, Eq, Structural)]
pub enum ReplSlashCommand {
    New,
    Session,
    Rename,
    Archive,
    Delete,
    Workspace,
    Models,
    Persona,
    Usage,
    Config,
    Variant,
    Undo,
    Pop,
    Compact,
    Reset,
    Wipe,
    History,
    Clear,
    Help,
    Exit,
}

/// An entry of the command table.
#[derive(Clone, Copy, Debug)]
pub struct ReplCommandSpec {
    pub name: &'static str,
    pub command: ReplSlashCommand,
    /// What stands behind the name in the help; empty for a command without
    /// arguments.
    pub arg_hint: &'static str,
    pub help_en: &'static str,
    pub help_zh: &'static str,
}

/// The commands in the order of the table.
pub open spec fn command_order() -> Seq<ReplSlashCommand> {
    seq![
        ReplSlashCommand::New,
        ReplSlashCommand::Session,
        ReplSlashCommand::Rename,
        ReplSlashCommand::Archive,
        ReplSlashCommand::Delete,
        ReplSlashCommand::Workspace,
        ReplSlashCommand::Models,
        ReplSlashCommand::Persona,
        ReplSlashCommand::Usage,
        ReplSlashCommand::Config,
        ReplSlashCommand::Variant,
        ReplSlashCommand::Undo,
        ReplSlashCommand::Pop,
        ReplSlashCommand::Compact,
        ReplSlashCommand::Reset,
        ReplSlashCommand::Wipe,
        ReplSlashCommand::History,
        ReplSlashCommand::Clear,
        ReplSlashCommand::Help,
        ReplSlashCommand::Exit,
    ]
}

pub open spec fn command_name(c: ReplSlashCommand) -> Seq<char> {
    match c {
        ReplSlashCommand::New => "/new"@,
        ReplSlashCommand::Session => "/session"@,
        ReplSlashCommand::Rename => "/rename"@,
        ReplSlashCommand::Archive => "/archive"@,
        ReplSlashCommand::Delete => "/delete"@,
        ReplSlashCommand::Workspace => "/workspace"@,
        ReplSlashCommand::Models => "/models"@,
        ReplSlashCommand::Persona => "/persona"@,
        ReplSlashCommand::Usage => "/usage"@,
        ReplSlashCommand::Config => "/config"@,
        ReplSlashCommand::Variant => "/variant"@,
        ReplSlashCommand::Undo => "/undo"@,
        ReplSlashCommand::Pop => "/pop"@,
        ReplSlashCommand::Compact => "/compact"@,
        ReplSlashCommand::Reset => "/reset"@,
        ReplSlashCommand::Wipe => "/wipe"@,
        ReplSlashCommand::History => "/history"@,
        ReplSlashCommand::Clear => "/clear"@,
        ReplSlashCommand::Help => "/help"@,
        ReplSlashCommand::Exit => "/exit"@,
    }
}

pub open spec fn command_hint(c: ReplSlashCommand) -> Seq<char> {
    match c {
        ReplSlashCommand::New => "[name]"@,
        ReplSlashCommand::Session => "[name|index]"@,
        ReplSlashCommand::Rename => "<name>"@,
        ReplSlashCommand::Archive => ""@,
        ReplSlashCommand::Delete => "[name|index]"@,
        ReplSlashCommand::Workspace => "[path|clear]"@,
        ReplSlashCommand::Models => "[index|provider/model|default]"@,
        ReplSlashCommand::Persona => "[name]"@,
        ReplSlashCommand::Usage => ""@,
        ReplSlashCommand::Config => ""@,
        ReplSlashCommand::Variant => "[name]"@,
        ReplSlashCommand::Undo => ""@,
        ReplSlashCommand::Pop => "[count]"@,
        ReplSlashCommand::Compact => ""@,
        ReplSlashCommand::Reset => ""@,
        ReplSlashCommand::Wipe => ""@,
        ReplSlashCommand::History => ""@,
        ReplSlashCommand::Clear => ""@,
        ReplSlashCommand::Help => ""@,
        ReplSlashCommand::Exit => ""@,
    }
}

pub open spec fn command_help(lang: Lang, c: ReplSlashCommand) -> Seq<char> {
    match c {
        ReplSlashCommand::New => pick(
            lang,
            "create a new session and switch to it"@,
            "创建新会话并切换过去"@,
        ),
        ReplSlashCommand::Session => pick(
            lang,
            "list sessions, or switch to one (Ctrl+D deletes in the picker)"@,
            "列出会话，或切换到指定会话（菜单内 Ctrl+D 删除）"@,
        ),
        ReplSlashCommand::Rename => pick(
            lang,
            "rename the current session"@,
            "重命名当前会话"@,
        ),
        ReplSlashCommand::Archive => pick(
            lang,
            "archive the current session"@,
            "归档当前会话"@,
        ),
        ReplSlashCommand::Delete => pick(
            lang,
            "delete a session (current by default)"@,
            "删除会话（默认当前会话）"@,
        ),
        ReplSlashCommand::Workspace => pick(
            lang,
            "show, bind, or unbind the session workspace"@,
            "查看、绑定或解绑会话工作目录"@,
        ),
        ReplSlashCommand::Models => pick(
            lang,
            "switch this session's model"@,
            "切换当前会话使用的模型"@,
        ),
        ReplSlashCommand::Persona => pick(
            lang,
            "switch the active persona"@,
            "切换当前人格"@,
        ),
        ReplSlashCommand::Usage => pick(
            lang,
            "show token usage details"@,
            "显示 Token 用量详情"@,
        ),
        ReplSlashCommand::Config => pick(
            lang,
            "open configuration UI"@,
            "打开配置界面"@,
        ),
        ReplSlashCommand::Variant => pick(
            lang,
            "view or switch thinking level"@,
            "查看或切换思考档位"@,
        ),
        ReplSlashCommand::Undo => pick(
            lang,
            "undo the last turn or context compaction"@,
            "撤销上一轮或上下文压缩"@,
        ),
        ReplSlashCommand::Pop => pick(
            lang,
            "pop selected turns or the oldest count from active context"@,
            "从当前上下文弹出所选轮次或最旧的指定轮数"@,
        ),
        ReplSlashCommand::Compact => pick(
            lang,
            "compact current conversation context now"@,
            "立即压缩当前会话上下文"@,
        ),
        ReplSlashCommand::Reset => pick(
            lang,
            "start this conversation over"@,
            "重新开始当前会话"@,
        ),
        ReplSlashCommand::Wipe => pick(
            lang,
            "erase memory, every conversation, group contexts and generated skills"@,
            "抹掉记忆、所有会话内容、群聊上下文和自动技能"@,
        ),
        ReplSlashCommand::History => pick(
            lang,
            "show recent conversation history"@,
            "显示最近的会话历史"@,
        ),
        ReplSlashCommand::Clear => pick(
            lang,
            "clear the screen"@,
            "清屏"@,
        ),
        ReplSlashCommand::Help => pick(
            lang,
            "show this help"@,
            "显示此帮助"@,
        ),
        ReplSlashCommand::Exit => pick(
            lang,
            "leave REPL"@,
            "退出 REPL"@,
        ),
    }
}

/// The table entry of a command.
pub open spec fn is_entry_of(spec: ReplCommandSpec, c: ReplSlashCommand) -> bool {
    &&& spec.command == c
    &&& spec.name@ == command_name(c)
    &&& spec.arg_hint@ == command_hint(c)
    &&& spec.help_en@ == command_help(Lang::En, c)
    &&& spec.help_zh@ == command_help(Lang::Zh, c)
}

pub fn repl_command_spec(command: ReplSlashCommand) -> (r: ReplCommandSpec)
    ensures
        is_entry_of(r, command),
{
    match command {
        ReplSlashCommand::New => ReplCommandSpec {
            name: "/new",
            command,
            arg_hint: "[name]",
            help_en: "create a new session and switch to it",
            help_zh: "创建新会话并切换过去",
        },
        ReplSlashCommand::Session => ReplCommandSpec {
            name: "/session",
            command,
            arg_hint: "[name|index]",
            help_en: "list sessions, or switch to one (Ctrl+D deletes in the picker)",
            help_zh: "列出会话，或切换到指定会话（菜单内 Ctrl+D 删除）",
        },
        ReplSlashCommand::Rename => ReplCommandSpec {
            name: "/rename",
            command,
            arg_hint: "<name>",
            help_en: "rename the current session",
            help_zh: "重命名当前会话",
        },
        ReplSlashCommand::Archive => ReplCommandSpec {
            name: "/archive",
            command,
            arg_hint: "",
            help_en: "archive the current session",
            help_zh: "归档当前会话",
        },
        ReplSlashCommand::Delete => ReplCommandSpec {
            name: "/delete",
            command,
            arg_hint: "[name|index]",
            help_en: "delete a session (current by default)",
            help_zh: "删除会话（默认当前会话）",
        },
        ReplSlashCommand::Workspace => ReplCommandSpec {
            name: "/workspace",
            command,
            arg_hint: "[path|clear]",
            help_en: "show, bind, or unbind the session workspace",
            help_zh: "查看、绑定或解绑会话工作目录",
        },
        ReplSlashCommand::Models => ReplCommandSpec {
            name: "/models",
            command,
            arg_hint: "[index|provider/model|default]",
            help_en: "switch this session's model",
            help_zh: "切换当前会话使用的模型",
        },
        ReplSlashCommand::Persona => ReplCommandSpec {
            name: "/persona",
            command,
            arg_hint: "[name]",
            help_en: "switch the active persona",
            help_zh: "切换当前人格",
        },
        ReplSlashCommand::Usage => ReplCommandSpec {
            name: "/usage",
            command,
            arg_hint: "",
            help_en: "show token usage details",
            help_zh: "显示 Token 用量详情",
        },
        ReplSlashCommand::Config => ReplCommandSpec {
            name: "/config",
            command,
            arg_hint: "",
            help_en: "open configuration UI",
            help_zh: "打开配置界面",
        },
        ReplSlashCommand::Variant => ReplCommandSpec {
            name: "/variant",
            command,
            arg_hint: "[name]",
            help_en: "view or switch thinking level",
            help_zh: "查看或切换思考档位",
        },
        ReplSlashCommand::Undo => ReplCommandSpec {
            name: "/undo",
            command,
            arg_hint: "",
            help_en: "undo the last turn or context compaction",
            help_zh: "撤销上一轮或上下文压缩",
        },
        ReplSlashCommand::Pop => ReplCommandSpec {
            name: "/pop",
            command,
            arg_hint: "[count]",
            help_en: "pop selected turns or the oldest count from active context",
            help_zh: "从当前上下文弹出所选轮次或最旧的指定轮数",
        },
        ReplSlashCommand::Compact => ReplCommandSpec {
            name: "/compact",
            command,
            arg_hint: "",
            help_en: "compact current conversation context now",
            help_zh: "立即压缩当前会话上下文",
        },
        ReplSlashCommand::Reset => ReplCommandSpec {
            name: "/reset",
            command,
            arg_hint: "",
            help_en: "start this conversation over",
            help_zh: "重新开始当前会话",
        },
        ReplSlashCommand::Wipe => ReplCommandSpec {
            name: "/wipe",
            command,
            arg_hint: "",
            help_en: "erase memory, every conversation, group contexts and generated skills",
            help_zh: "抹掉记忆、所有会话内容、群聊上下文和自动技能",
        },
        ReplSlashCommand::History => ReplCommandSpec {
            name: "/history",
            command,
            arg_hint: "",
            help_en: "show recent conversation history",
            help_zh: "显示最近的会话历史",
        },
        ReplSlashCommand::Clear => ReplCommandSpec {
            name: "/clear",
            command,
            arg_hint: "",
            help_en: "clear the screen",
            help_zh: "清屏",
        },
        ReplSlashCommand::Help => ReplCommandSpec {
            name: "/help",
            command,
            arg_hint: "",
            help_en: "show this help",
            help_zh: "显示此帮助",
        },
        ReplSlashCommand::Exit => ReplCommandSpec {
            name: "/exit",
            command,
            arg_hint: "",
            help_en: "leave REPL",
            help_zh: "退出 REPL",
        },
    }
}

fn ordered_commands() -> (r: Vec<ReplSlashCommand>)
    ensures
        r@ == command_order(),
{
    let r: Vec<ReplSlashCommand> = vec![
        ReplSlashCommand::New,
        ReplSlashCommand::Session,
        ReplSlashCommand::Rename,
        ReplSlashCommand::Archive,
        ReplSlashCommand::Delete,
        ReplSlashCommand::Workspace,
        ReplSlashCommand::Models,
        ReplSlashCommand::Persona,
        ReplSlashCommand::Usage,
        ReplSlashCommand::Config,
        ReplSlashCommand::Variant,
        ReplSlashCommand::Undo,
        ReplSlashCommand::Pop,
        ReplSlashCommand::Compact,
        ReplSlashCommand::Reset,
        ReplSlashCommand::Wipe,
        ReplSlashCommand::History,
        ReplSlashCommand::Clear,
        ReplSlashCommand::Help,
        ReplSlashCommand::Exit,
    ];
    assert(r@ =~= command_order());
    r
}

/// The table itself.
pub fn repl_command_table() -> (r: Vec<ReplCommandSpec>)
    ensures
        r@.len() == command_order().len(),
        forall|i: int| 0 <= i < r@.len() ==> is_entry_of(#[trigger] r@[i], command_order()[i]),
{
    let order = ordered_commands();
    let mut out: Vec<ReplCommandSpec> = Vec::new();
    let mut i: usize = 0;
    while i < order.len()
        invariant
            order@ == command_order(),
            i <= order@.len(),
            out@.len() == i,
            forall|k: int| 0 <= k < i ==> is_entry_of(#[trigger] out@[k], command_order()[k]),
        decreases order@.len() - i,
    {
        out.push(repl_command_spec(order[i]));
        i = i + 1;
    }
    out
}

/// The texts of a vector of string slices.
pub open spec fn strs(v: Seq<&'static str>) -> Seq<Seq<char>> {
    v.map_values(|s: &'static str| s@)
}

/// The names of the commands.
pub open spec fn names_of(v: Seq<ReplSlashCommand>) -> Seq<Seq<char>> {
    v.map_values(|c: ReplSlashCommand| command_name(c))
}

fn names_vec(v: &[ReplSlashCommand]) -> (r: Vec<&'static str>)
    ensures
        strs(r@) == names_of(v@),
{
    let mut out: Vec<&'static str> = Vec::new();
    let mut i: usize = 0;
    while i < v.len()
        invariant
            i <= v@.len(),
            out@.len() == i,
            forall|k: int| 0 <= k < i ==> (#[trigger] out@[k])@ == command_name(v@[k]),
        decreases v@.len() - i,
    {
        let spec = repl_command_spec(v[i]);
        out.push(spec.name);
        i = i + 1;
    }
    assert(strs(out@) =~= names_of(v@));
    out
}

pub fn repl_commands() -> (r: Vec<&'static str>)
    ensures
        strs(r@) == names_of(command_order()),
{
    let order = ordered_commands();
    names_vec(&order)
}

/// The commands whose name begins with `prefix`, in the order of the table.
pub open spec fn commands_with_prefix(prefix: Seq<char>) -> Seq<ReplSlashCommand> {
    command_order().filter(|c: ReplSlashCommand| begins_with(command_name(c), prefix))
}

fn find_by_prefix(prefix: &str) -> (r: Vec<ReplSlashCommand>)
    ensures
        r@ == commands_with_prefix(prefix@),
{
    let order = ordered_commands();
    let ghost keep = |c: ReplSlashCommand| begins_with(command_name(c), prefix@);
    let mut out: Vec<ReplSlashCommand> = Vec::new();
    let mut i: usize = 0;
    proof {
        assert(command_order().take(0).filter(keep) =~= out@);
    }
    while i < order.len()
        invariant
            order@ == command_order(),
            i <= order@.len(),
            keep == (|c: ReplSlashCommand| begins_with(command_name(c), prefix@)),
            out@ == command_order().take(i as int).filter(keep),
        decreases order@.len() - i,
    {
        let c = order[i];
        let spec = repl_command_spec(c);
        proof {
            reveal(Seq::filter);
            assert(command_order().take(i + 1).drop_last() =~= command_order().take(i as int));
        }
        if starts_with(spec.name, prefix) {
            out.push(c);
        }
        i = i + 1;
    }
    assert(command_order().take(command_order().len() as int) =~= command_order());
    out
}

/// The command of exactly that name.
pub open spec fn command_named(name: Seq<char>) -> Option<ReplSlashCommand> {
    if exists|c: ReplSlashCommand| command_name(c) == name {
        Some(choose|c: ReplSlashCommand| command_name(c) == name)
    } else {
        None
    }
}

/// The commands have different names, and each stands in the table.
pub proof fn law_commands_are_distinct(a: ReplSlashCommand, b: ReplSlashCommand)
    ensures
        command_name(a) == command_name(b) ==> a == b,
        command_order().contains(a),
        begins_with(command_name(a), "/"@),
{
    lemma_name_facts(a);
    lemma_name_facts(b);
    let i = table_index(a);
    assert(command_order()[i] == a);
    reveal_strlit("/");
    assert(command_name(a).take(1) =~= "/"@);
}

/// The place of a command in the table.
pub open spec fn table_index(c: ReplSlashCommand) -> int {
    match c {
        ReplSlashCommand::New => 0,
        ReplSlashCommand::Session => 1,
        ReplSlashCommand::Rename => 2,
        ReplSlashCommand::Archive => 3,
        ReplSlashCommand::Delete => 4,
        ReplSlashCommand::Workspace => 5,
        ReplSlashCommand::Models => 6,
        ReplSlashCommand::Persona => 7,
        ReplSlashCommand::Usage => 8,
        ReplSlashCommand::Config => 9,
        ReplSlashCommand::Variant => 10,
        ReplSlashCommand::Undo => 11,
        ReplSlashCommand::Pop => 12,
        ReplSlashCommand::Compact => 13,
        ReplSlashCommand::Reset => 14,
        ReplSlashCommand::Wipe => 15,
        ReplSlashCommand::History => 16,
        ReplSlashCommand::Clear => 17,
        ReplSlashCommand::Help => 18,
        ReplSlashCommand::Exit => 19,
    }
}

proof fn lemma_name_facts(c: ReplSlashCommand)
    ensures
        command_name(c).len() >= 4,
        command_name(c)[0] == '/',
        c is New ==> command_name(c).len() == 4 && command_name(c)[1] == 'n' && command_name(c)[2] == 'e' && command_name(c)[3] == 'w',
        c is Session ==> command_name(c).len() == 8 && command_name(c)[1] == 's' && command_name(c)[2] == 'e' && command_name(c)[3] == 's',
        c is Rename ==> command_name(c).len() == 7 && command_name(c)[1] == 'r' && command_name(c)[2] == 'e' && command_name(c)[3] == 'n',
        c is Archive ==> command_name(c).len() == 8 && command_name(c)[1] == 'a' && command_name(c)[2] == 'r' && command_name(c)[3] == 'c',
        c is Delete ==> command_name(c).len() == 7 && command_name(c)[1] == 'd' && command_name(c)[2] == 'e' && command_name(c)[3] == 'l',
        c is Workspace ==> command_name(c).len() == 10 && command_name(c)[1] == 'w' && command_name(c)[2] == 'o' && command_name(c)[3] == 'r',
        c is Models ==> command_name(c).len() == 7 && command_name(c)[1] == 'm' && command_name(c)[2] == 'o' && command_name(c)[3] == 'd',
        c is Persona ==> command_name(c).len() == 8 && command_name(c)[1] == 'p' && command_name(c)[2] == 'e' && command_name(c)[3] == 'r',
        c is Usage ==> command_name(c).len() == 6 && command_name(c)[1] == 'u' && command_name(c)[2] == 's' && command_name(c)[3] == 'a',
        c is Config ==> command_name(c).len() == 7 && command_name(c)[1] == 'c' && command_name(c)[2] == 'o' && command_name(c)[3] == 'n',
        c is Variant ==> command_name(c).len() == 8 && command_name(c)[1] == 'v' && command_name(c)[2] == 'a' && command_name(c)[3] == 'r',
        c is Undo ==> command_name(c).len() == 5 && command_name(c)[1] == 'u' && command_name(c)[2] == 'n' && command_name(c)[3] == 'd',
        c is Pop ==> command_name(c).len() == 4 && command_name(c)[1] == 'p' && command_name(c)[2] == 'o' && command_name(c)[3] == 'p',
        c is Compact ==> command_name(c).len() == 8 && command_name(c)[1] == 'c' && command_name(c)[2] == 'o' && command_name(c)[3] == 'm',
        c is Reset ==> command_name(c).len() == 6 && command_name(c)[1] == 'r' && command_name(c)[2] == 'e' && command_name(c)[3] == 's',
        c is Wipe ==> command_name(c).len() == 5 && command_name(c)[1] == 'w' && command_name(c)[2] == 'i' && command_name(c)[3] == 'p',
        c is History ==> command_name(c).len() == 8 && command_name(c)[1] == 'h' && command_name(c)[2] == 'i' && command_name(c)[3] == 's',
        c is Clear ==> command_name(c).len() == 6 && command_name(c)[1] == 'c' && command_name(c)[2] == 'l' && command_name(c)[3] == 'e',
        c is Help ==> command_name(c).len() == 5 && command_name(c)[1] == 'h' && command_name(c)[2] == 'e' && command_name(c)[3] == 'l',
        c is Exit ==> command_name(c).len() == 5 && command_name(c)[1] == 'e' && command_name(c)[2] == 'x' && command_name(c)[3] == 'i',
{
    reveal_strlit("/new");
    reveal_strlit("/session");
    reveal_strlit("/rename");
    reveal_strlit("/archive");
    reveal_strlit("/delete");
    reveal_strlit("/workspace");
    reveal_strlit("/models");
    reveal_strlit("/persona");
    reveal_strlit("/usage");
    reveal_strlit("/config");
    reveal_strlit("/variant");
    reveal_strlit("/undo");
    reveal_strlit("/pop");
    reveal_strlit("/compact");
    reveal_strlit("/reset");
    reveal_strlit("/wipe");
    reveal_strlit("/history");
    reveal_strlit("/clear");
    reveal_strlit("/help");
    reveal_strlit("/exit");
}

fn find_by_name(name: &str) -> (r: Option<ReplSlashCommand>)
    ensures
        r == command_named(name@),
{
    let order = ordered_commands();
    let mut i: usize = 0;
    while i < order.len()
        invariant
            order@ == command_order(),
            i <= order@.len(),
            forall|k: int| 0 <= k < i ==> command_name(#[trigger] command_order()[k]) != name@,
        decreases order@.len() - i,
    {
        let c = order[i];
        let spec = repl_command_spec(c);
        if same(spec.name, name) {
            proof {
                law_commands_are_distinct(c, command_named(name@)->0);
            }
            return Some(c);
        }
        i = i + 1;
    }
    proof {
        if exists|c: ReplSlashCommand| command_name(c) == name@ {
            let c = choose|c: ReplSlashCommand| command_name(c) == name@;
            law_commands_are_distinct(c, c);
            let k = table_index(c);
            assert(command_order()[k] == c);
        }
    }
    None
}

/// The number of characters of `s` before its first white space.
pub open spec fn word_len(s: Seq<char>) -> nat
    decreases s.len(),
{
    if s.len() > 0 && !is_white_space(s[0]) {
        1 + word_len(s.drop_first())
    } else {
        0
    }
}

pub proof fn lemma_word_len(s: Seq<char>)
    ensures
        word_len(s) <= s.len(),
        word_len(s) < s.len() ==> is_white_space(s[word_len(s) as int]),
        forall|i: int| 0 <= i < word_len(s) ==> !is_white_space(#[trigger] s[i]),
    decreases s.len(),
{
    if s.len() > 0 && !is_white_space(s[0]) {
        lemma_word_len(s.drop_first());
        assert forall|i: int| 0 <= i < word_len(s) implies !is_white_space(#[trigger] s[i]) by {
            if i > 0 {
                assert(s.drop_first()[i - 1] == s[i]);
            }
        }
    }
}

/// What stands behind the first white space.
pub open spec fn behind_word(s: Seq<char>) -> Seq<char> {
    if word_len(s) < s.len() {
        s.skip(word_len(s) as int + 1)
    } else {
        Seq::empty()
    }
}

pub fn split_repl_command(input: &str) -> (r: (&str, &str))
    ensures
        r.0@ == input@.take(word_len(input@) as int),
        r.1@ == behind_word(input@),
{
    let v = to_chars(input);
    let n: usize = v.len();
    let mut k: usize = 0;
    assert(v@.skip(0) =~= v@);
    while k < n && !v[k].is_whitespace()
        invariant
            n == v@.len(),
            k <= n,
            word_len(v@) == k + word_len(v@.skip(k as int)),
        decreases n - k,
    {
        assert(v@.skip(k as int).drop_first() =~= v@.skip(k + 1));
        k = k + 1;
    }
    assert(input@.subrange(0, k as int) =~= input@.take(k as int));
    if k == n {
        assert(input@.take(n as int) =~= input@);
        reveal_empty_literal();
        (input, "")
    } else {
        assert(input@.subrange(k + 1, n as int) =~= input@.skip(k + 1));
        (input.substring_char(0, k), input.substring_char(k + 1, n))
    }
}

fn reveal_empty_literal()
    ensures
        ""@ == Seq::<char>::empty(),
{
    proof {
        reveal_strlit("");
    }
    assert(""@ =~= Seq::<char>::empty());
}

/// What a line of input asks for: plain chat, a slash command with its
/// argument string, or a slash command that names none or more than one.
#[derive(Clone, Copy, Debug)]
pub enum ReplInput<'a> {
    Chat,
    Slash(ReplSlashCommand, &'a str),
    UnknownSlash(&'a str),
}

/// The command that a name means: the one of that name, else the only one
/// whose name begins with it; upper and lower case are the same.
pub open spec fn command_meant(name: Seq<char>) -> Option<ReplSlashCommand> {
    let wanted = lower(name);
    if command_named(wanted) is Some {
        command_named(wanted)
    } else if commands_with_prefix(wanted).len() == 1 {
        Some(commands_with_prefix(wanted)[0])
    } else {
        None
    }
}

pub fn parse_repl_input<'a>(input: &'a str) -> (r: ReplInput<'a>)
    ensures
        match r {
            ReplInput::Chat => !begins_with(input@, "/"@),
            ReplInput::Slash(c, args) => {
                &&& begins_with(input@, "/"@)
                &&& command_meant(input@.take(word_len(input@) as int)) == Some(c)
                &&& args@ == behind_word(input@)
            },
            ReplInput::UnknownSlash(name) => {
                &&& begins_with(input@, "/"@)
                &&& name@ == input@.take(word_len(input@) as int)
                &&& command_meant(name@) is None
            },
        },
{
    if !starts_with(input, "/") {
        return ReplInput::Chat;
    }
    let (name, args) = split_repl_command(input);
    let lowered = lowercase(name);
    if let Some(c) = find_by_name(lowered.as_str()) {
        return ReplInput::Slash(c, args);
    }
    let found = find_by_prefix(lowered.as_str());
    if found.len() == 1 {
        ReplInput::Slash(found[0], args)
    } else {
        ReplInput::UnknownSlash(name)
    }
}

/// The commands that the input can still become.
pub open spec fn suggested(input: Seq<char>) -> Seq<ReplSlashCommand> {
    if begins_with(input, "/"@) {
        commands_with_prefix(input)
    } else {
        Seq::empty()
    }
}

pub fn repl_command_suggestions(input: &str) -> (r: Vec<&'static str>)
    ensures
        strs(r@) == names_of(suggested(input@)),
{
    if !starts_with(input, "/") {
        let none: Vec<&'static str> = Vec::new();
        assert(strs(none@) =~= names_of(suggested(input@)));
        return none;
    }
    let found = find_by_prefix(input);
    names_vec(&found)
}

/// The only command that the input can still become.
pub open spec fn completion(input: Seq<char>) -> Option<ReplSlashCommand> {
    if suggested(input).len() == 1 {
        Some(suggested(input)[0])
    } else {
        None
    }
}

pub fn complete_repl_command(input: &str) -> (r: Option<&'static str>)
    ensures
        match (r, completion(input@)) {
            (Some(name), Some(c)) => name@ == command_name(c),
            (None, None) => true,
            _ => false,
        },
{
    let suggestions = repl_command_suggestions(input);
    assert(strs(suggestions@).len() == names_of(suggested(input@)).len());
    if suggestions.len() == 1 {
        assert(strs(suggestions@)[0] == command_name(suggested(input@)[0]));
        Some(suggestions[0])
    } else {
        None
    }
}

pub fn resolve_repl_command<'a>(input: &'a str) -> (r: &'a str)
    ensures
        r@ == match completion(input@) {
            Some(c) => command_name(c),
            None => input@,
        },
{
    match complete_repl_command(input) {
        Some(command) => command,
        None => input,
    }
}

pub fn repl_command_suggestions_line(suggestions: &[&'static str], max_width: usize) -> (r: String)
    ensures
        r@ == truncated(joined(strs(suggestions@), "  "@), max_width as nat),
        width_of(r@) <= max_width,
{
    let mut parts: Vec<String> = Vec::new();
    let mut i: usize = 0;
    while i < suggestions.len()
        invariant
            i <= suggestions@.len(),
            parts@.len() == i,
            forall|k: int| 0 <= k < i ==> (#[trigger] parts@[k])@ == suggestions@[k]@,
        decreases suggestions@.len() - i,
    {
        parts.push(suggestions[i].to_owned());
        i = i + 1;
    }
    assert(texts(parts@) =~= strs(suggestions@));
    let line = join(&parts, "  ");
    truncate_visible_width(line.as_str(), max_width)
}

/// How a command is written in the help.
pub open spec fn invocation(c: ReplSlashCommand) -> Seq<char> {
    if command_hint(c).len() == 0 {
        command_name(c)
    } else {
        command_name(c) + " "@ + command_hint(c)
    }
}

/// The length of the longest of the first `n` invocations.
pub open spec fn longest_invocation(n: int) -> int
    decreases n,
{
    if n <= 0 {
        0
    } else {
        let before = longest_invocation(n - 1);
        let len = invocation(command_order()[n - 1]).len() as int;
        if len > before {
            len
        } else {
            before
        }
    }
}

/// The help line of a command: its invocation filled up to the longest, and
/// what it does.
pub open spec fn help_line(lang: Lang, c: ReplSlashCommand) -> Seq<char> {
    let width = longest_invocation(command_order().len() as int);
    let filling = width - invocation(c).len();
    "  "@ + invocation(c) + run_of(' ', filling as nat) + "  "@ + command_help(lang, c)
}

proof fn lemma_longest(n: int)
    requires
        n <= command_order().len(),
    ensures
        forall|i: int|
            0 <= i < n ==> (#[trigger] invocation(command_order()[i])).len() <= longest_invocation(
                n,
            ),
    decreases n,
{
    if n > 0 {
        lemma_longest(n - 1);
    }
}

/// The lines of the help that describe the commands, in the order of the table.
pub fn repl_help_lines(lang: Lang) -> (r: Vec<String>)
    ensures
        texts(r@) == command_order().map_values(|c: ReplSlashCommand| help_line(lang, c)),
{
    let order = ordered_commands();
    let mut written: Vec<String> = Vec::new();
    let mut width: usize = 0;
    let mut i: usize = 0;
    while i < order.len()
        invariant
            order@ == command_order(),
            i <= order@.len(),
            written@.len() == i,
            width == longest_invocation(i as int),
            forall|k: int|
                0 <= k < i ==> (#[trigger] written@[k])@ == invocation(command_order()[k]),
        decreases order@.len() - i,
    {
        let spec = repl_command_spec(order[i]);
        let mut text = spec.name.to_owned();
        if !spec.arg_hint.is_empty() {
            text.append(" ");
            text.append(spec.arg_hint);
        }
        let n = text.as_str().unicode_len();
        if n > width {
            width = n;
        }
        written.push(text);
        i = i + 1;
    }
    proof {
        lemma_longest(command_order().len() as int);
    }
    let mut out: Vec<String> = Vec::new();
    let mut j: usize = 0;
    while j < order.len()
        invariant
            order@ == command_order(),
            j <= order@.len(),
            out@.len() == j,
            written@.len() == order@.len(),
            width == longest_invocation(command_order().len() as int),
            forall|k: int|
                0 <= k < written@.len() ==> (#[trigger] written@[k])@ == invocation(
                    command_order()[k],
                ),
            forall|k: int|
                0 <= k < command_order().len() ==> (#[trigger] invocation(
                    command_order()[k],
                )).len() <= width,
            forall|k: int|
                0 <= k < j ==> (#[trigger] out@[k])@ == help_line(lang, command_order()[k]),
        decreases order@.len() - j,
    {
        let spec = repl_command_spec(order[j]);
        let text = written[j].as_str();
        assert(text@ == invocation(command_order()[j as int]));
        let fill = spaces(width - text.unicode_len());
        let mut line = "  ".to_owned();
        line.append(text);
        line.append(fill.as_str());
        line.append("  ");
        line.append(t(lang, spec.help_en, spec.help_zh));
        out.push(line);
        j = j + 1;
    }
    assert(texts(out@) =~= command_order().map_values(
        |c: ReplSlashCommand| help_line(lang, c),
    ));
    out
}

/// Typing the whole name of a command, in whatever case, always means that
/// command, even where it begins the name of another.
pub proof fn law_full_name_means_its_command(c: ReplSlashCommand, typed: Seq<char>)
    requires
        lower(typed) == command_name(c),
    ensures
        command_meant(typed) == Some(c),
{
    let other = command_named(lower(typed))->0;
    assert(command_name(c) == lower(typed));
    law_commands_are_distinct(other, c);
}

/// Tab only ever completes to a command of the table that begins with what was
/// typed.
pub proof fn law_completion_extends_input(input: Seq<char>)
    ensures
        completion(input) matches Some(c) ==> begins_with(command_name(c), input)
            && command_order().contains(c),
{
    if let Some(c) = completion(input) {
        let keep = |d: ReplSlashCommand| begins_with(command_name(d), input);
        broadcast use vstd::seq_lib::group_filter_ensures;

        let found = command_order().filter(keep);
        assert(found.contains(found[0]));
        assert(keep(found[0]));
    }
}

/// The word behind the slash is the command: each of the twenty is typed as its
/// own name, in whatever case.
pub proof fn law_commands_are_typed_as_their_names(typed: Seq<char>)
    ensures
        lower(typed) == "/new"@ ==> command_meant(typed) == Some(
            ReplSlashCommand::New,
        ),
        lower(typed) == "/session"@ ==> command_meant(typed) == Some(
            ReplSlashCommand::Session,
        ),
        lower(typed) == "/rename"@ ==> command_meant(typed) == Some(
            ReplSlashCommand::Rename,
        ),
        lower(typed) == "/archive"@ ==> command_meant(typed) == Some(
            ReplSlashCommand::Archive,
        ),
        lower(typed) == "/delete"@ ==> command_meant(typed) == Some(
            ReplSlashCommand::Delete,
        ),
        lower(typed) == "/workspace"@ ==> command_meant(typed) == Some(
            ReplSlashCommand::Workspace,
        ),
        lower(typed) == "/models"@ ==> command_meant(typed) == Some(
            ReplSlashCommand::Models,
        ),
        lower(typed) == "/persona"@ ==> command_meant(typed) == Some(
            ReplSlashCommand::Persona,
        ),
        lower(typed) == "/usage"@ ==> command_meant(typed) == Some(
            ReplSlashCommand::Usage,
        ),
        lower(typed) == "/config"@ ==> command_meant(typed) == Some(
            ReplSlashCommand::Config,
        ),
        lower(typed) == "/variant"@ ==> command_meant(typed) == Some(
            ReplSlashCommand::Variant,
        ),
        lower(typed) == "/undo"@ ==> command_meant(typed) == Some(
            ReplSlashCommand::Undo,
        ),
        lower(typed) == "/pop"@ ==> command_meant(typed) == Some(
            ReplSlashCommand::Pop,
        ),
        lower(typed) == "/compact"@ ==> command_meant(typed) == Some(
            ReplSlashCommand::Compact,
        ),
        lower(typed) == "/reset"@ ==> command_meant(typed) == Some(
            ReplSlashCommand::Reset,
        ),
        lower(typed) == "/wipe"@ ==> command_meant(typed) == Some(
            ReplSlashCommand::Wipe,
        ),
        lower(typed) == "/history"@ ==> command_meant(typed) == Some(
            ReplSlashCommand::History,
        ),
        lower(typed) == "/clear"@ ==> command_meant(typed) == Some(
            ReplSlashCommand::Clear,
        ),
        lower(typed) == "/help"@ ==> command_meant(typed) == Some(
            ReplSlashCommand::Help,
        ),
        lower(typed) == "/exit"@ ==> command_meant(typed) == Some(
            ReplSlashCommand::Exit,
        ),
{
    if lower(typed) == "/new"@ {
        law_full_name_means_its_command(ReplSlashCommand::New, typed);
    }
    if lower(typed) == "/session"@ {
        law_full_name_means_its_command(ReplSlashCommand::Session, typed);
    }
    if lower(typed) == "/rename"@ {
        law_full_name_means_its_command(ReplSlashCommand::Rename, typed);
    }
    if lower(typed) == "/archive"@ {
        law_full_name_means_its_command(ReplSlashCommand::Archive, typed);
    }
    if lower(typed) == "/delete"@ {
        law_full_name_means_its_command(ReplSlashCommand::Delete, typed);
    }
    if lower(typed) == "/workspace"@ {
        law_full_name_means_its_command(ReplSlashCommand::Workspace, typed);
    }
    if lower(typed) == "/models"@ {
        law_full_name_means_its_command(ReplSlashCommand::Models, typed);
    }
    if lower(typed) == "/persona"@ {
        law_full_name_means_its_command(ReplSlashCommand::Persona, typed);
    }
    if lower(typed) == "/usage"@ {
        law_full_name_means_its_command(ReplSlashCommand::Usage, typed);
    }
    if lower(typed) == "/config"@ {
        law_full_name_means_its_command(ReplSlashCommand::Config, typed);
    }
    if lower(typed) == "/variant"@ {
        law_full_name_means_its_command(ReplSlashCommand::Variant, typed);
    }
    if lower(typed) == "/undo"@ {
        law_full_name_means_its_command(ReplSlashCommand::Undo, typed);
    }
    if lower(typed) == "/pop"@ {
        law_full_name_means_its_command(ReplSlashCommand::Pop, typed);
    }
    if lower(typed) == "/compact"@ {
        law_full_name_means_its_command(ReplSlashCommand::Compact, typed);
    }
    if lower(typed) == "/reset"@ {
        law_full_name_means_its_command(ReplSlashCommand::Reset, typed);
    }
    if lower(typed) == "/wipe"@ {
        law_full_name_means_its_command(ReplSlashCommand::Wipe, typed);
    }
    if lower(typed) == "/history"@ {
        law_full_name_means_its_command(ReplSlashCommand::History, typed);
    }
    if lower(typed) == "/clear"@ {
        law_full_name_means_its_command(ReplSlashCommand::Clear, typed);
    }
    if lower(typed) == "/help"@ {
        law_full_name_means_its_command(ReplSlashCommand::Help, typed);
    }
    if lower(typed) == "/exit"@ {
        law_full_name_means_its_command(ReplSlashCommand::Exit, typed);
    }
}

/// The beginning of a name means the command where only one begins so, and
/// nothing where several do or none does.
pub proof fn law_beginnings_mean_one_command(typed: Seq<char>, a: ReplSlashCommand, b: ReplSlashCommand)
    requires
        forall|c: ReplSlashCommand| command_name(c) != lower(typed),
    ensures
        a != b && begins_with(command_name(a), lower(typed)) && begins_with(
            command_name(b),
            lower(typed),
        ) ==> command_meant(typed) is None,
        command_meant(typed) matches Some(c) ==> begins_with(command_name(c), lower(typed)),
        (forall|c: ReplSlashCommand|
            #[trigger] begins_with(command_name(c), lower(typed)) <==> c == a) ==> command_meant(
            typed,
        ) == Some(a),
{
    let wanted = lower(typed);
    let keep = |c: ReplSlashCommand| begins_with(command_name(c), wanted);
    broadcast use vstd::seq_lib::group_filter_ensures;

    let found = command_order().filter(keep);
    assert(command_named(wanted) is None);
    law_commands_are_distinct(a, b);
    law_commands_are_distinct(b, a);
    assert(commands_with_prefix(wanted) =~= found);
    if a != b && keep(a) && keep(b) {
        assert(found.contains(a) && found.contains(b));
        let i = choose|i: int| 0 <= i < found.len() && found[i] == a;
        let j = choose|j: int| 0 <= j < found.len() && found[j] == b;
        assert(i != j);
        assert(found.len() != 1);
    }
    if found.len() == 1 {
        assert(found.contains(found[0]));
        assert(keep(found[0]));
    }
    if forall|c: ReplSlashCommand| #[trigger] begins_with(command_name(c), wanted) <==> c == a {
        assert(keep(a));
        assert(found.contains(a));
        assert(command_order().no_duplicates());
        lemma_order_filter_single(command_order(), keep, a);
    }
}

proof fn lemma_order_filter_single(
    s: Seq<ReplSlashCommand>,
    keep: spec_fn(ReplSlashCommand) -> bool,
    a: ReplSlashCommand,
)
    requires
        s.no_duplicates(),
        forall|c: ReplSlashCommand| #[trigger] keep(c) <==> c == a,
    ensures
        s.contains(a) ==> s.filter(keep) == seq![a],
        !s.contains(a) ==> s.filter(keep).len() == 0,
    decreases s.len(),
{
    reveal(Seq::filter);
    if s.len() > 0 {
        let rest = s.drop_last();
        assert forall|i: int, j: int| 0 <= i < rest.len() && 0 <= j < rest.len() && i != j implies rest[i]
            != rest[j] by {
            assert(rest[i] == s[i] && rest[j] == s[j]);
        }
        lemma_order_filter_single(rest, keep, a);
        if s.last() == a {
            assert(!rest.contains(a)) by {
                if rest.contains(a) {
                    let i = choose|i: int| 0 <= i < rest.len() && rest[i] == a;
                    assert(s[i] == a);
                }
            }
            assert(s.contains(a)) by {
                assert(s[s.len() - 1] == a);
            }
            assert(s.filter(keep) =~= seq![a]);
        } else {
            assert(s.contains(a) <==> rest.contains(a)) by {
                if s.contains(a) {
                    let i = choose|i: int| 0 <= i < s.len() && s[i] == a;
                    assert(rest[i] == a);
                }
                if rest.contains(a) {
                    let i = choose|i: int| 0 <= i < rest.len() && rest[i] == a;
                    assert(s[i] == a);
                }
            }
        }
    }
}

/// Tab fills in the command exactly where one is left, and the line stays as it
/// is otherwise.
pub proof fn law_resolving_completes_or_keeps(input: &str, r: &str)
    requires
        call_ensures(resolve_repl_command, (input,), r),
    ensures
        begins_with(r@, input@),
        r@ != input@ ==> (exists|c: ReplSlashCommand| r@ == command_name(c)),
        !begins_with(input@, "/"@) ==> r@ == input@,
{
    law_completion_extends_input(input@);
    assert(input@.take(input@.len() as int) =~= input@);
}

/// A line is split at its first white space: the word before it, and everything
/// behind it.
pub proof fn law_lines_split_at_the_first_blank(input: &str, r: (&str, &str))
    requires
        call_ensures(split_repl_command, (input,), r),
    ensures
        forall|i: int| 0 <= i < r.0@.len() ==> !is_white_space(#[trigger] r.0@[i]),
        r.0@.len() < input@.len() ==> is_white_space(input@[r.0@.len() as int]) && input@ == r.0@
            + seq![input@[r.0@.len() as int]] + r.1@,
        r.0@.len() == input@.len() ==> r.0@ == input@ && r.1@.len() == 0,
        r.0@.len() <= input@.len(),
{
    lemma_word_len(input@);
    let n = word_len(input@) as int;
    if n < input@.len() {
        assert(input@ =~= input@.take(n) + seq![input@[n]] + input@.skip(n + 1));
    } else {
        assert(input@.take(n) =~= input@);
    }
}

/// The help names every command once, in the order of the table, and says how it
/// is written and what it does.
pub proof fn law_help_describes_every_command(lang: Lang, c: ReplSlashCommand, r: Vec<String>)
    requires
        call_ensures(repl_help_lines, (lang,), r),
    ensures
        r@.len() == 20,
        exists|i: int|
            0 <= i < r@.len() && begins_with(#[trigger] texts(r@)[i], "  "@ + invocation(c))
                && texts(r@)[i].len() >= command_help(lang, c).len() && texts(r@)[i].skip(
                texts(r@)[i].len() - command_help(lang, c).len(),
            ) == command_help(lang, c),
{
    law_commands_are_distinct(c, c);
    let i = table_index(c);
    assert(command_order()[i] == c);
    let line = help_line(lang, c);
    let lines = command_order().map_values(|c: ReplSlashCommand| help_line(lang, c));
    assert(lines.len() == 20);
    assert(texts(r@).len() == r@.len());
    assert(lines[i] == line);
    assert(line.take(("  "@ + invocation(c)).len() as int) =~= "  "@ + invocation(c));
    assert(line.skip(line.len() - command_help(lang, c).len()) =~= command_help(lang, c));
    assert(begins_with(texts(r@)[i], "  "@ + invocation(c)));
}

/// The names are written in small letters, each behind a slash.
pub proof fn lemma_names_are_small(c: ReplSlashCommand)
    ensures
        lower(command_name(c)) == command_name(c),
        command_name(c).len() > 1,
        command_name(c)[0] == '/',
{
    reveal_strlit("/new");
    reveal_strlit("/session");
    reveal_strlit("/rename");
    reveal_strlit("/archive");
    reveal_strlit("/delete");
    reveal_strlit("/workspace");
    reveal_strlit("/models");
    reveal_strlit("/persona");
    reveal_strlit("/usage");
    reveal_strlit("/config");
    reveal_strlit("/variant");
    reveal_strlit("/undo");
    reveal_strlit("/pop");
    reveal_strlit("/compact");
    reveal_strlit("/reset");
    reveal_strlit("/wipe");
    reveal_strlit("/history");
    reveal_strlit("/clear");
    reveal_strlit("/help");
    reveal_strlit("/exit");
    assert(lower(command_name(c)) =~= command_name(c));
}

/// A full name is completed to itself, in whatever case it is typed.
pub proof fn law_full_name_is_completed_to_itself(c: ReplSlashCommand, word: Seq<char>)
    requires
        lower(word) == command_name(c),
    ensures
        completion(word) matches Some(d) ==> d == c && command_name(d) == word,
{
    law_completion_extends_input(word);
    if let Some(d) = completion(word) {
        lemma_names_are_small(d);
        let name = command_name(d);
        assert(name.take(word.len() as int) == word);
        assert forall|i: int| 0 <= i < word.len() implies #[trigger] lower(word)[i] == word[i] by {
            assert(lower(name)[i] == lower_char(name[i]));
            assert(name.take(word.len() as int)[i] == name[i]);
            assert(lower(word)[i] == lower_char(word[i]));
        }
        assert(lower(word) =~= word);
        assert(command_name(c).take(word.len() as int) =~= word);
        let keep = |e: ReplSlashCommand| begins_with(command_name(e), word);
        broadcast use vstd::seq_lib::group_filter_ensures;

        assert(keep(c));
        law_commands_are_distinct(c, c);
        assert(command_order().contains(c));
        let found = command_order().filter(keep);
        assert(suggested(word) == found);
        assert(found.len() == 1);
        assert(found.contains(c));
        let i = choose|i: int| 0 <= i < found.len() && found[i] == c;
        assert(0 <= i < found.len() && found[i] == c);
        assert(i == 0);
    }
}

} // verus!
