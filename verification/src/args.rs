//! The command line: what can be asked for, and where it leads.
use crate::jobs::opt_string;
use crate::lang::{pick, t, Lang};
use crate::mode::AgentMode;
use crate::text::{same, texts};
use std::path::PathBuf;
use vstd::prelude::*;
use vstd::string::*;

verus! {

/// A path, which is handed on as it is.
#[verifier::external_type_specification]
#[verifier::external_body]
pub struct ExPathBuf(PathBuf);

#[derive(Debug)]
pub struct SessionNameArgs {
    pub name: Option<String>,
}

#[derive(Debug)]
pub struct SessionTargetArgs {
    pub target: Option<String>,
}

#[derive(Debug)]
pub struct SessionRenameArgs {
    pub name: String,
}

#[derive(Debug)]
pub struct WorkspaceArgs {
    pub path: Option<String>,
}

#[derive(Debug)]
pub struct VoiceArgs {
    pub once: bool,
    pub no_wake: bool,
    pub no_tts: bool,
    pub wake_word: Option<String>,
}

#[derive(Debug)]
pub struct MessageArgs {
    pub message: Vec<String>,
}

#[derive(Debug)]
pub struct WipeArgs {
    /// Skip the question, where nobody can answer it.
    pub yes: bool,
}

/// How the web front end is started. The password is no part of any output.
pub struct WebArgs {
    pub port: u16,
    /// The address to listen on, as text.
    pub bind: Option<String>,
    pub password: Option<String>,
    pub password_file: Option<PathBuf>,
    /// The port was given, not defaulted.
    pub port_explicit: bool,
}

#[derive(Debug)]
pub struct DaemonArgs {
    pub port: Option<u16>,
    pub command: Option<DaemonCommand>,
}

#[derive(Debug)]
pub enum DaemonCommand {
    Start,
    Stop,
    Restart,
    Status,
    Logs(DaemonLogsArgs),
}

#[derive(Debug)]
pub struct DaemonLogsArgs {
    pub lines: Option<usize>,
}

#[derive(Debug)]
pub struct AlarmWorkerArgs {
    pub id: String,
    pub time: String,
    pub label: String,
    pub state_dir: PathBuf,
    pub cache_dir: PathBuf,
    pub audio_file: Option<PathBuf>,
}

#[derive(Debug)]
pub struct ToolArgs {
    pub name: String,
    pub arguments: Option<String>,
}

#[derive(Debug)]
pub struct ConfigArgs {
    pub command: Option<ConfigCommand>,
}

#[derive(Debug)]
pub struct HistoryArgs {
    pub limit: usize,
    pub raw: bool,
    pub no_thinking: bool,
}

#[derive(Debug)]
pub struct PopArgs {
    pub count: Option<usize>,
}

#[derive(Debug)]
pub struct ExportArgs {
    /// Where to write the archive; defaults to a name made of the host and the
    /// time, in the current directory.
    pub output: Option<PathBuf>,
    pub all: bool,
    pub index: bool,
    pub platforms: bool,
    pub no_secrets: bool,
    pub dry_run: bool,
    pub force: bool,
}

#[derive(Debug)]
pub struct ImportArgs {
    pub archive: PathBuf,
    pub force: bool,
}

#[derive(Debug)]
pub struct ModelsArgs {
    /// A number of the list from one, `provider/model`, a bare model name, or
    /// `default` to follow the global pool again.
    pub target: Option<String>,
}

#[derive(Debug)]
pub struct VariantArgs {
    pub name: Option<String>,
}

#[derive(Debug)]
pub struct KbArgs {
    pub command: KbCommand,
}

#[derive(Debug)]
pub struct MemoryArgs {
    pub command: MemoryCommand,
}

#[derive(Debug)]
pub enum MemoryCommand {
    Stats,
    Reset(MemoryResetArgs),
    Search(MemorySearchArgs),
    Remember(MemoryRememberArgs),
}

#[derive(Debug)]
pub struct MemoryResetArgs {
    pub include_skills: bool,
}

#[derive(Debug)]
pub struct MemorySearchArgs {
    pub query: Vec<String>,
    pub limit: Option<usize>,
    pub forgotten: bool,
}

#[derive(Debug)]
pub struct MemoryRememberArgs {
    pub content: Vec<String>,
    pub source: String,
}

#[derive(Debug)]
pub struct SkillsArgs {
    pub command: SkillsCommand,
}

#[derive(Debug)]
pub enum SkillsCommand {
    List,
    Show(SkillNameArgs),
    Enable(SkillNameArgs),
    Disable(SkillNameArgs),
    Remove(SkillNameArgs),
    Stats,
    Prune,
}

#[derive(Debug)]
pub struct SkillNameArgs {
    pub name: String,
}

#[derive(Debug)]
pub enum KbCommand {
    Add(KbAddArgs),
    List,
    Search(KbSearchArgs),
    Find(KbFindArgs),
    Read(KbReadArgs),
    Remove(KbRemoveArgs),
    Reindex,
    Stats,
    Embed(KbEmbedArgs),
}

#[derive(Debug)]
pub struct KbAddArgs {
    pub path: PathBuf,
    /// Directories are taken with all that is below them in any case.
    pub recursive: bool,
}

#[derive(Debug)]
pub struct KbSearchArgs {
    pub query: Vec<String>,
    pub limit: Option<usize>,
}

#[derive(Debug)]
pub struct KbFindArgs {
    pub query: Vec<String>,
    pub limit: Option<usize>,
}

#[derive(Debug)]
pub struct KbReadArgs {
    pub file: String,
    pub start: usize,
    pub lines: Option<usize>,
}

#[derive(Debug)]
pub struct KbRemoveArgs {
    pub file: String,
}

#[derive(Debug)]
pub struct KbEmbedArgs {
    pub command: KbEmbedCommand,
}

#[derive(Debug)]
pub enum KbEmbedCommand {
    Reindex(KbEmbedReindexArgs),
}

#[derive(Debug)]
pub struct KbEmbedReindexArgs {
    pub quiet: bool,
}

#[derive(Debug)]
pub enum ConfigCommand {
    Validate,
    Paths,
    PromptSource,
}

/// A subcommand.
pub enum Command {
    AlarmWorker(AlarmWorkerArgs),
    Tool(ToolArgs),
    /// Run as the daemon.
    DaemonWorker(WebArgs),
    Ask(MessageArgs),
    Init,
    Paths,
    Config(ConfigArgs),
    Reload,
    Models(ModelsArgs),
    ListModels,
    Variant(VariantArgs),
    FishInit,
    BashInit,
    ZshInit,
    RemoveShellHook,
    History(HistoryArgs),
    Pop(PopArgs),
    Kb(KbArgs),
    Export(ExportArgs),
    Import(ImportArgs),
    UpdateDefaultKb,
    Memory(MemoryArgs),
    Skills(SkillsArgs),
    Reset,
    Wipe(WipeArgs),
    New(SessionNameArgs),
    Session(SessionTargetArgs),
    Rename(SessionRenameArgs),
    Archive,
    Delete(SessionTargetArgs),
    Workspace(WorkspaceArgs),
    Web(WebArgs),
    Daemon(DaemonArgs),
    Voice(VoiceArgs),
}

/// A command line.
pub struct Cli {
    pub plan: bool,
    pub debug: bool,
    pub stdout: bool,
    /// The session for this command alone.
    pub session: Option<String>,
    pub continue_session: bool,
    pub shell_intercept: bool,
    pub shell_classify: bool,
    pub shell: Option<String>,
    pub stdin: bool,
    pub clipboard_paste: bool,
    pub command: Option<Command>,
    pub message: Vec<String>,
}

/// The words from `from` on up to `--`, without `--debug`; from `--` on all of
/// them.
pub open spec fn without_debug(args: Seq<Seq<char>>) -> Seq<Seq<char>>
    decreases args.len(),
{
    if args.len() == 0 || args[0] == "--"@ {
        args
    } else if args[0] == "--debug"@ {
        without_debug(args.skip(1))
    } else {
        seq![args[0]] + without_debug(args.skip(1))
    }
}

/// Whether `--debug` stands before `--`.
pub open spec fn has_debug(args: Seq<Seq<char>>) -> bool
    decreases args.len(),
{
    args.len() > 0 && args[0] != "--"@ && (args[0] == "--debug"@ || has_debug(args.skip(1)))
}

/// Takes `--debug` out of the arguments wherever it stands before `--`, and says
/// whether it was there. The name of the program is no argument.
pub fn extract_debug_flag(args: &mut Vec<String>) -> (debug: bool)
    ensures
        ({
            let all = texts(old(args)@);
            if all.len() == 0 {
                !debug && texts(final(args)@) == all
            } else {
                &&& texts(final(args)@) == seq![all[0]] + without_debug(all.skip(1))
                &&& debug == has_debug(all.skip(1))
            }
        }),
{
    let ghost all = texts(args@);
    proof {
        reveal_strlit("--");
        reveal_strlit("--debug");
        assert("--"@.len() != "--debug"@.len());
    }
    if args.len() == 0 {
        return false;
    }
    let mut debug: bool = false;
    let mut index: usize = 1;
    let ghost kept = texts(args@).take(1);
    assert(kept =~= seq![all[0]]);
    assert(kept + without_debug(all.skip(1)) =~= seq![all[0]] + without_debug(all.skip(1)));
    while index < args.len()
        invariant
            "--"@.len() != "--debug"@.len(),
            all == texts(old(args)@),
            1 <= index <= args@.len(),
            all.len() > 0,
            texts(args@).take(index as int) + without_debug(texts(args@).skip(index as int)) == seq![
                all[0],
            ] + without_debug(all.skip(1)),
            (debug || has_debug(texts(args@).skip(index as int))) == has_debug(all.skip(1)),
        decreases args@.len() - index,
    {
        let ghost now = texts(args@);
        let ghost rest = now.skip(index as int);
        assert(rest[0] == args@[index as int]@);
        if same(args[index].as_str(), "--") {
            assert(without_debug(rest) == rest);
            assert(now.take(index as int) + rest =~= now);
            assert(!has_debug(rest));
            return debug;
        }
        if same(args[index].as_str(), "--debug") {
            args.remove(index);
            debug = true;
            assert(texts(args@).take(index as int) =~= now.take(index as int));
            assert(texts(args@).skip(index as int) =~= rest.skip(1));
        } else {
            assert(rest.skip(1) =~= now.skip(index + 1));
            assert(now.take(index + 1) =~= now.take(index as int) + seq![rest[0]]);
            assert(now.take(index as int) + (seq![rest[0]] + without_debug(rest.skip(1)))
                =~= now.take(index + 1) + without_debug(now.skip(index + 1)));
            index = index + 1;
        }
    }
    assert(texts(args@).skip(index as int) =~= Seq::empty());
    assert(texts(args@).take(index as int) + Seq::empty() =~= texts(args@));
    debug
}

/// Extracting the flag again finds nothing and changes nothing.
pub proof fn law_debug_flag_is_taken_once(args: Seq<Seq<char>>)
    ensures
        without_debug(without_debug(args)) == without_debug(args),
        !has_debug(without_debug(args)),
    decreases args.len(),
{
    if args.len() > 0 && args[0] != "--"@ {
        law_debug_flag_is_taken_once(args.skip(1));
        if args[0] != "--debug"@ {
            let rest = without_debug(args.skip(1));
            let all = seq![args[0]] + rest;
            assert(all.skip(1) =~= rest);
            assert(without_debug(all) == seq![args[0]] + without_debug(rest));
        }
    }
}

/// Where a command line leads before its subcommand is looked at.
#[derive(Clone, Copy, Debug, PartialEq, Eq, Structural)]
pub enum Entry {
    /// Tell a shell whether a line is its own.
    Classify,
    ClipboardPaste,
    /// Take over a line from a shell.
    Intercept,
    Subcommand,
}

pub fn entry_of(cli: &Cli) -> (r: Entry)
    ensures
        r == if cli.shell_classify {
            Entry::Classify
        } else if cli.clipboard_paste {
            Entry::ClipboardPaste
        } else if cli.shell_intercept {
            Entry::Intercept
        } else {
            Entry::Subcommand
        },
{
    if cli.shell_classify {
        Entry::Classify
    } else if cli.clipboard_paste {
        Entry::ClipboardPaste
    } else if cli.shell_intercept {
        Entry::Intercept
    } else {
        Entry::Subcommand
    }
}

/// The shell that a line came from.
pub fn shell_of(cli: &Cli) -> (r: &str)
    ensures
        r@ == match opt_string(cli.shell) {
            Some(name) => name,
            None => "fish"@,
        },
{
    match &cli.shell {
        Some(name) => name.as_str(),
        None => "fish",
    }
}

/// A viewer of logs does not write to the log that it is about to show.
pub fn skips_logging(command: &Option<Command>) -> (r: bool)
    ensures
        r == (*command matches Some(Command::Daemon(args)) && args.command matches Some(
            DaemonCommand::Logs(_),
        )),
{
    match command {
        Some(Command::Daemon(args)) => match &args.command {
            Some(DaemonCommand::Logs(_)) => true,
            _ => false,
        },
        _ => false,
    }
}

pub fn mode_of(plan: bool) -> (r: AgentMode)
    ensures
        r == if plan {
            AgentMode::Plan
        } else {
            AgentMode::Normal
        },
{
    if plan {
        AgentMode::Plan
    } else {
        AgentMode::Normal
    }
}

/// Commands that work without a configuration.
pub open spec fn needs_no_config(command: Option<Command>) -> bool {
    match command {
        Some(Command::Init) => true,
        Some(Command::FishInit) => true,
        Some(Command::BashInit) => true,
        Some(Command::ZshInit) => true,
        Some(Command::RemoveShellHook) => true,
        Some(Command::Paths) => true,
        Some(Command::Import(_)) => true,
        _ => false,
    }
}

/// Whether everything is set up first.
pub fn starts_with_init(command: &Option<Command>, config_exists: bool) -> (r: bool)
    ensures
        r == (!config_exists && !needs_no_config(*command)),
{
    let without = match command {
        Some(Command::Init) => true,
        Some(Command::FishInit) => true,
        Some(Command::BashInit) => true,
        Some(Command::ZshInit) => true,
        Some(Command::RemoveShellHook) => true,
        Some(Command::Paths) => true,
        Some(Command::Import(_)) => true,
        _ => false,
    };
    !config_exists && !without
}

/// What a command line without a subcommand does.
#[derive(Clone, Copy, Debug, PartialEq, Eq, Structural)]
pub enum BareRoute {
    Prompt,
    OneShot,
}

/// Without a message, at a terminal, the prompt opens; which session to use is
/// then no matter of the command line.
pub fn bare_route(lang: Lang, message: &str, stdin_is_terminal: bool, names_session: bool) -> (r:
    Result<BareRoute, String>)
    ensures
        match r {
            Ok(route) => route == if message@.len() == 0 && stdin_is_terminal {
                BareRoute::Prompt
            } else {
                BareRoute::OneShot
            } && !(message@.len() == 0 && stdin_is_terminal && names_session),
            Err(note) => message@.len() == 0 && stdin_is_terminal && names_session && note@ == pick(
                lang,
                "--session and --continue only apply to one-shot commands; use /session inside the REPL"@,
                "--session 与 --continue 仅用于一次性命令；REPL 内请使用 /session 切换"@,
            ),
        },
{
    if message.is_empty() && stdin_is_terminal {
        if names_session {
            return Err(
                t(
                    lang,
                    "--session and --continue only apply to one-shot commands; use /session inside the REPL",
                    "--session 与 --continue 仅用于一次性命令；REPL 内请使用 /session 切换",
                ).to_owned(),
            );
        }
        Ok(BareRoute::Prompt)
    } else {
        Ok(BareRoute::OneShot)
    }
}

/// The flag is taken out wherever it stands before `--`; what stands behind that
/// is left as it is, and so is everything else.
pub proof fn law_debug_flag_is_taken_out(before: Seq<Seq<char>>, behind: Seq<Seq<char>>)
    requires
        forall|i: int|
            0 <= i < before.len() ==> #[trigger] before[i] != "--"@ && before[i] != "--debug"@,
    ensures
        without_debug(before + seq!["--debug"@]) == before,
        has_debug(before + seq!["--debug"@]),
        without_debug(before + seq!["--"@] + behind) == before + seq!["--"@] + behind,
        !has_debug(before + seq!["--"@] + behind),
        without_debug(before) == before,
        !has_debug(before),
    decreases before.len(),
{
    reveal_strlit("--");
    reveal_strlit("--debug");
    assert("--"@.len() == 2 && "--debug"@.len() == 7);
    if before.len() == 0 {
        let one = seq!["--debug"@];
        assert(one[0] == "--debug"@);
        assert(before + one =~= one);
        assert(one.skip(1) =~= Seq::<Seq<char>>::empty());
        assert(without_debug(one.skip(1)) == one.skip(1));
        assert(without_debug(one) =~= before);
        assert((before + seq!["--"@] + behind)[0] == "--"@);
    } else {
        let rest = before.skip(1);
        assert forall|i: int| 0 <= i < rest.len() implies #[trigger] rest[i] != "--"@ && rest[i]
            != "--debug"@ by {
            assert(rest[i] == before[i + 1]);
        }
        law_debug_flag_is_taken_out(rest, behind);
        assert(before[0] != "--"@ && before[0] != "--debug"@);
        let a = before + seq!["--debug"@];
        assert(a.skip(1) =~= rest + seq!["--debug"@]);
        assert(seq![before[0]] + rest =~= before);
        let b = before + seq!["--"@] + behind;
        assert(b.skip(1) =~= rest + seq!["--"@] + behind);
        assert(seq![before[0]] + (rest + seq!["--"@] + behind) =~= b);
        assert(a[0] == before[0] && b[0] == before[0]);
    }
}

/// Where a command line leads: telling a shell comes before pasting, which comes
/// before taking over a line, which comes before the subcommand.
pub proof fn law_entries_by_their_switch(cli: &Cli, r: Entry)
    requires
        call_ensures(entry_of, (cli,), r),
    ensures
        r is Classify <==> cli.shell_classify,
        r is ClipboardPaste <==> cli.clipboard_paste && !cli.shell_classify,
        r is Intercept <==> cli.shell_intercept && !cli.clipboard_paste && !cli.shell_classify,
        r is Subcommand <==> !cli.shell_intercept && !cli.clipboard_paste && !cli.shell_classify,
{
}

/// The shell is the one that is named, and fish where none is.
pub proof fn law_shell_defaults_to_fish(cli: &Cli, r: &str)
    requires
        call_ensures(shell_of, (cli,), r),
    ensures
        cli.shell matches Some(name) ==> r@ == name@,
        cli.shell is None ==> r@ == "fish"@,
{
}

/// Only a viewer of logs writes none.
pub proof fn law_only_log_viewers_write_none(command: &Option<Command>, r: bool)
    requires
        call_ensures(skips_logging, (command,), r),
    ensures
        r ==> *command is Some && (*command)->0 is Daemon && (*command)->0->Daemon_0.command is Some
            && (*command)->0->Daemon_0.command->0 is Logs,
        *command matches Some(Command::Daemon(args)) ==> (args.command matches Some(
            DaemonCommand::Logs(_),
        )) ==> r,
{
}

/// The switch for planning sets the mode.
pub proof fn law_plan_switch_sets_the_mode(plan: bool, r: AgentMode)
    requires
        call_ensures(mode_of, (plan,), r),
    ensures
        plan <==> r is Plan,
        !plan <==> r is Normal,
{
}

/// Everything is set up first where there is no configuration yet, but for the
/// commands that need none.
pub proof fn law_setup_comes_first(command: &Option<Command>, exists_already: bool, r: bool)
    requires
        call_ensures(starts_with_init, (command, exists_already), r),
    ensures
        exists_already ==> !r,
        !exists_already && *command is None ==> r,
        !exists_already && *command is Some && ((*command)->0 is Ask || (*command)->0 is Web
            || (*command)->0 is Daemon || (*command)->0 is Pop || (*command)->0 is Reset
            || (*command)->0 is Export || (*command)->0 is History) ==> r,
        *command is Some && ((*command)->0 is Init || (*command)->0 is Paths || (*command)->0
            is Import || (*command)->0 is FishInit || (*command)->0 is BashInit || (*command)->0
            is ZshInit || (*command)->0 is RemoveShellHook) ==> !r,
{
}

/// Without a message, at a terminal, the prompt opens; a session that is named
/// there is refused. In any other case there is one turn.
pub proof fn law_bare_command_line(
    lang: Lang,
    message: &str,
    terminal: bool,
    named: bool,
    r: Result<BareRoute, String>,
)
    requires
        call_ensures(bare_route, (lang, message, terminal, named), r),
    ensures
        r is Err <==> message@.len() == 0 && terminal && named,
        message@.len() == 0 && terminal && !named ==> r == Ok::<BareRoute, String>(
            BareRoute::Prompt,
        ),
        message@.len() > 0 || !terminal ==> r == Ok::<BareRoute, String>(BareRoute::OneShot),
{
}

} // verus!
