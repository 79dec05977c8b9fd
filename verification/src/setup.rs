//! Setting things up: the first start, the alarm worker, the tools of a mode, and
//! what the configuration says of itself.
use crate::jobs::opt_string;
use crate::lang::{pick, t, Lang};
use crate::layout::not_negative;
use crate::mode::AgentMode;
use crate::notes::{labelled, labelled_text};
use crate::text::{decimal, decimal_text, lines, lines_of, run_of, spaces, texts, trim, trimmed};
use std::path::PathBuf;
use vstd::prelude::*;
use vstd::string::*;

verus! {

/// Why everything is set up.
#[derive(Clone, Copy, Debug, PartialEq, Eq, Structural)]
pub enum InitKind {
    FirstRun,
    Explicit,
}

/// The line above the steps, at a terminal.
pub fn init_title(lang: Lang, kind: InitKind) -> (r: &'static str)
    ensures
        r@ == match kind {
            InitKind::FirstRun => pick(lang, "Laozhou first start"@, "Laozhou 首次启动"@),
            InitKind::Explicit => pick(lang, "Laozhou initialization"@, "Laozhou 初始化"@),
        },
{
    match kind {
        InitKind::FirstRun => t(lang, "Laozhou first start", "Laozhou 首次启动"),
        InitKind::Explicit => t(lang, "Laozhou initialization", "Laozhou 初始化"),
    }
}

/// A step that is done, in a column of 24 characters.
pub open spec fn init_step(label: Seq<char>, value: Seq<char>) -> Seq<char> {
    "  "@ + label + run_of(' ', not_negative(24 - label.len()) as nat) + " ✓ "@ + value
}

pub fn print_init_step(label: &str, value: &str) -> (r: String)
    ensures
        r@ == init_step(label@, value@),
{
    let fill = spaces(24usize.saturating_sub(label.unicode_len()));
    let mut r = "  ".to_owned();
    r.append(label);
    r.append(fill.as_str());
    r.append(" ✓ ");
    r.append(value);
    r
}

/// What is said at the end.
pub fn run_init(lang: Lang, interactive: bool, config_dir: &str) -> (r: String)
    ensures
        r@ == if interactive {
            "\n"@ + pick(lang, "Initialization complete."@, "初始化完成。"@) + "\n"@
        } else {
            pick(lang, "initialized Laozhou at"@, "Laozhou 已初始化于"@) + " "@ + config_dir@
        },
{
    if interactive {
        crate::echo::enclosed("\n", t(lang, "Initialization complete.", "初始化完成。"), "\n")
    } else {
        crate::echo::enclosed(
            t(lang, "initialized Laozhou at", "Laozhou 已初始化于"),
            " ",
            config_dir,
        )
    }
}

/// The directories of the program; what a worker has no use for is not set.
#[derive(Debug)]
pub struct LaozhouPaths {
    pub config_dir: Option<PathBuf>,
    pub config_file: Option<PathBuf>,
    pub skills_dir: Option<PathBuf>,
    pub data_dir: Option<PathBuf>,
    pub cache_dir: Option<PathBuf>,
    pub state_dir: Option<PathBuf>,
    pub pictures_dir: Option<PathBuf>,
    pub fish_hook_file: Option<PathBuf>,
    pub bash_hook_file: Option<PathBuf>,
    pub zsh_hook_file: Option<PathBuf>,
    pub scripts_dir: Option<PathBuf>,
    pub system_scripts_dir: Option<PathBuf>,
}

/// The worker of an alarm knows where state and caches are, and nothing else.
pub fn alarm_worker_paths(state_dir: PathBuf, cache_dir: PathBuf) -> (r: LaozhouPaths)
    ensures
        r == (LaozhouPaths {
            config_dir: None,
            config_file: None,
            skills_dir: None,
            data_dir: None,
            cache_dir: Some(cache_dir),
            state_dir: Some(state_dir),
            pictures_dir: None,
            fish_hook_file: None,
            bash_hook_file: None,
            zsh_hook_file: None,
            scripts_dir: None,
            system_scripts_dir: None,
        }),
{
    LaozhouPaths {
        config_dir: None,
        config_file: None,
        skills_dir: None,
        data_dir: None,
        cache_dir: Some(cache_dir),
        state_dir: Some(state_dir),
        pictures_dir: None,
        fish_hook_file: None,
        bash_hook_file: None,
        zsh_hook_file: None,
        scripts_dir: None,
        system_scripts_dir: None,
    }
}

/// What happened to an alarm.
#[derive(Debug)]
pub enum AlarmNews {
    /// It rings in so many seconds, from a file or with the built-in sound.
    Scheduled { seconds: u64, source: Option<String> },
    Starting,
    Failed(String),
    Finished,
}

/// A line of the log of alarms.
pub open spec fn alarm_line(id: Seq<char>, news: AlarmNews) -> Seq<char> {
    id + ": "@ + (match news {
        AlarmNews::Scheduled { seconds, source } => "scheduled in "@ + decimal(seconds as nat)
            + "s; source="@ + match opt_string(source) {
            Some(path) => path,
            None => "builtin"@,
        },
        AlarmNews::Starting => "playback starting"@,
        AlarmNews::Failed(error) => "audio playback failed: "@ + error@,
        AlarmNews::Finished => "playback finished"@,
    }) + "\n"@
}

pub fn append_alarm_log(id: &str, news: &AlarmNews) -> (r: String)
    ensures
        r@ == alarm_line(id@, *news),
{
    let mut text: String = String::new();
    match news {
        AlarmNews::Scheduled { seconds, source } => {
            let number = decimal_text(*seconds);
            text = "scheduled in ".to_owned();
            text.append(number.as_str());
            text.append("s; source=");
            match source {
                Some(path) => text.append(path.as_str()),
                None => text.append("builtin"),
            }
        },
        AlarmNews::Starting => {
            text = "playback starting".to_owned();
        },
        AlarmNews::Failed(error) => {
            text = "audio playback failed: ".to_owned();
            text.append(error.as_str());
        },
        AlarmNews::Finished => {
            text = "playback finished".to_owned();
        },
    }
    let mut r = id.to_owned();
    r.append(": ");
    r.append(text.as_str());
    r.append("\n");
    r
}

/// The tools that a mode begins with.
#[derive(Clone, Copy, Debug, PartialEq, Eq, Structural)]
pub enum ToolBase {
    Empty,
    Builtin,
    Readonly,
    Chat,
}

/// The tools of a turn.
#[derive(Clone, Copy, Debug, PartialEq, Eq, Structural)]
pub struct ToolPlan {
    pub base: ToolBase,
    pub skills: bool,
    pub skill_authoring: bool,
    pub ask_question: bool,
}

/// Without tools there is nothing; a plan only reads; skills are written in the
/// normal mode alone; questions need somebody to answer them.
pub open spec fn tool_plan(tools: bool, skills: bool, mode: AgentMode, questions: bool) -> ToolPlan {
    ToolPlan {
        base: if !tools {
            ToolBase::Empty
        } else {
            match mode {
                AgentMode::Normal => ToolBase::Builtin,
                AgentMode::Plan => ToolBase::Readonly,
                AgentMode::Chat => ToolBase::Chat,
            }
        },
        skills: tools && skills,
        skill_authoring: tools && skills && mode == AgentMode::Normal,
        ask_question: tools && questions,
    }
}

pub fn build_tool_registry(
    tools_enabled: bool,
    skills_enabled: bool,
    mode: AgentMode,
    interactive_questions: bool,
) -> (r: ToolPlan)
    ensures
        r == tool_plan(tools_enabled, skills_enabled, mode, interactive_questions),
{
    let base = if tools_enabled {
        match mode {
            AgentMode::Normal => ToolBase::Builtin,
            AgentMode::Plan => ToolBase::Readonly,
            AgentMode::Chat => ToolBase::Chat,
        }
    } else {
        ToolBase::Empty
    };
    let skills = tools_enabled && skills_enabled;
    ToolPlan {
        base,
        skills,
        skill_authoring: skills && mode == AgentMode::Normal,
        ask_question: tools_enabled && interactive_questions,
    }
}

/// Whatever is switched on, a plan has no tool that writes, and no mode has a
/// tool where tools are switched off.
pub proof fn law_plans_do_not_write(tools: bool, skills: bool, mode: AgentMode, questions: bool)
    ensures
        mode == AgentMode::Plan ==> {
            let plan = tool_plan(tools, skills, mode, questions);
            plan.base != ToolBase::Builtin && !plan.skill_authoring
        },
        !tools ==> tool_plan(tools, skills, mode, questions) == (ToolPlan {
            base: ToolBase::Empty,
            skills: false,
            skill_authoring: false,
            ask_question: false,
        }),
{
}

/// The output flags of a terminal in raw mode with which line feeds still start
/// a new line.
pub fn restore_live_output_processing(output_flags: u32, process: u32, new_lines: u32) -> (r: u32)
    ensures
        r == output_flags | (process | new_lines),
{
    output_flags | (process | new_lines)
}

/// Where the prompt of the assistant comes from.
#[derive(Debug)]
pub struct PromptFacts {
    pub persona: String,
    /// The file of the persona, where one is active.
    pub persona_file: Option<String>,
    pub persona_file_exists: bool,
    pub custom_prompt: String,
    pub custom_prompt_file: String,
    pub identity: String,
    pub prompts_dir: String,
    pub identities_dir: String,
    pub system_prompt: String,
}

pub open spec fn prompt_source(facts: PromptFacts) -> Seq<char> {
    match opt_string(facts.persona_file) {
        Some(path) => if facts.persona_file_exists {
            "persona ("@ + path + ")"@
        } else {
            custom_source(facts)
        },
        None => custom_source(facts),
    }
}

pub open spec fn custom_source(facts: PromptFacts) -> Seq<char> {
    if trimmed(facts.custom_prompt@).len() > 0 {
        "legacy_custom ("@ + facts.custom_prompt_file@ + ")"@
    } else {
        "built-in"@
    }
}

pub open spec fn or_none(name: Seq<char>) -> Seq<char> {
    if trimmed(name).len() == 0 {
        "(none)"@
    } else {
        trimmed(name)
    }
}

pub open spec fn first_line(text: Seq<char>) -> Seq<char> {
    if lines_of(text).len() == 0 {
        Seq::empty()
    } else {
        lines_of(text)[0]
    }
}

/// The report about the prompt.
pub open spec fn prompt_report(facts: PromptFacts) -> Seq<Seq<char>> {
    seq![
        labelled("base_prompt_source"@, prompt_source(facts)),
        labelled("active_persona"@, or_none(facts.persona@)),
    ] + (match opt_string(facts.persona_file) {
        Some(path) => seq![labelled("active_persona_file"@, path)],
        None => Seq::empty(),
    }) + seq![
        labelled("active_identity"@, or_none(facts.identity@)),
        labelled("prompts_dir"@, facts.prompts_dir@),
        labelled("identities_dir"@, facts.identities_dir@),
        labelled("system_prompt_first_line"@, first_line(facts.system_prompt@)),
        labelled("system_prompt_chars"@, decimal(facts.system_prompt@.len())),
    ]
}

fn prompt_source_text(facts: &PromptFacts) -> (r: String)
    ensures
        r@ == prompt_source(*facts),
{
    if let Some(path) = &facts.persona_file {
        if facts.persona_file_exists {
            return crate::echo::enclosed("persona (", path.as_str(), ")");
        }
    }
    if !trim(facts.custom_prompt.as_str()).is_empty() {
        crate::echo::enclosed("legacy_custom (", facts.custom_prompt_file.as_str(), ")")
    } else {
        "built-in".to_owned()
    }
}

fn name_or_none(name: &str) -> (r: &str)
    ensures
        r@ == or_none(name@),
{
    let clean = trim(name);
    if clean.is_empty() {
        "(none)"
    } else {
        clean
    }
}

fn first_line_text(text: &str) -> (r: String)
    ensures
        r@ == first_line(text@),
{
    let mut all = lines(text);
    assert(texts(all@).len() == all@.len());
    if all.is_empty() {
        String::new()
    } else {
        assert(texts(all@)[0] == all@[0]@);
        all.remove(0)
    }
}

pub fn run_config(facts: &PromptFacts) -> (r: Vec<String>)
    ensures
        texts(r@) == prompt_report(*facts),
{
    let source = prompt_source_text(facts);
    let head = first_line_text(facts.system_prompt.as_str());
    let count = decimal_text(facts.system_prompt.as_str().unicode_len() as u64);
    let mut out: Vec<String> = Vec::new();
    out.push(labelled_text("base_prompt_source", source.as_str()));
    out.push(labelled_text("active_persona", name_or_none(facts.persona.as_str())));
    if let Some(path) = &facts.persona_file {
        out.push(labelled_text("active_persona_file", path.as_str()));
    }
    out.push(labelled_text("active_identity", name_or_none(facts.identity.as_str())));
    out.push(labelled_text("prompts_dir", facts.prompts_dir.as_str()));
    out.push(labelled_text("identities_dir", facts.identities_dir.as_str()));
    out.push(labelled_text("system_prompt_first_line", head.as_str()));
    out.push(labelled_text("system_prompt_chars", count.as_str()));
    assert(texts(out@) =~= prompt_report(*facts));
    out
}

/// A line about the progress of updating the default knowledge base.
pub fn write_default_kb_update_progress(message: &str) -> (r: String)
    ensures
        r@ == "[default-kb] "@ + message@ + "\n"@,
{
    crate::echo::enclosed("[default-kb] ", message, "\n")
}

/// The first start and a later one have their own titles, and the end says where
/// everything is, or that it is done.
pub proof fn law_setting_up_is_told(
    lang: Lang,
    kind: InitKind,
    title: &'static str,
    interactive: bool,
    dir: &str,
    end: String,
)
    requires
        call_ensures(init_title, (lang, kind), title),
        call_ensures(run_init, (lang, interactive, dir), end),
    ensures
        kind is FirstRun ==> title@ == pick(lang, "Laozhou first start"@, "Laozhou 首次启动"@),
        kind is Explicit ==> title@ == pick(lang, "Laozhou initialization"@, "Laozhou 初始化"@),
        interactive ==> end@ == "\n"@ + pick(lang, "Initialization complete."@, "初始化完成。"@)
            + "\n"@,
        !interactive ==> end@ == pick(lang, "initialized Laozhou at"@, "Laozhou 已初始化于"@) + " "@
            + dir@,
{
}

/// The marks of the steps stand under each other, in column 26, for labels that
/// leave room for it.
pub proof fn law_steps_stand_in_a_column(label: &str, value: &str, r: String)
    requires
        call_ensures(print_init_step, (label, value), r),
    ensures
        label@.len() <= 24 ==> r@.len() >= 26 && r@.take(2) == "  "@ && r@.subrange(
            2,
            2 + label@.len() as int,
        ) == label@ && r@.skip(26) == " ✓ "@ + value@,
        label@.len() > 24 ==> r@ == "  "@ + label@ + " ✓ "@ + value@,
{
    reveal_strlit("  ");
    let fill = run_of(' ', not_negative(24 - label@.len()) as nat);
    if label@.len() <= 24 {
        assert(r@.take(2) =~= "  "@);
        assert(r@.subrange(2, 2 + label@.len() as int) =~= label@);
        assert(r@.skip(26) =~= " ✓ "@ + value@);
    } else {
        assert(fill =~= Seq::<char>::empty());
        assert("  "@ + label@ + fill =~= "  "@ + label@);
    }
}

/// The worker of an alarm has the two directories in their own places, and no
/// other.
pub proof fn law_alarm_worker_knows_two_directories(state: PathBuf, cache: PathBuf, r: LaozhouPaths)
    requires
        call_ensures(alarm_worker_paths, (state, cache), r),
    ensures
        r.state_dir == Some(state),
        r.cache_dir == Some(cache),
        r.config_dir is None && r.config_file is None && r.skills_dir is None && r.data_dir is None
            && r.pictures_dir is None && r.fish_hook_file is None && r.bash_hook_file is None
            && r.zsh_hook_file is None && r.scripts_dir is None && r.system_scripts_dir is None,
{
}

/// Each event of an alarm is a line of the log that begins with the alarm.
pub proof fn law_alarm_events_are_logged(id: &str, news: &AlarmNews, r: String)
    requires
        call_ensures(append_alarm_log, (id, news), r),
    ensures
        *news is Starting ==> r@ == id@ + ": "@ + "playback starting"@ + "\n"@,
        *news is Finished ==> r@ == id@ + ": "@ + "playback finished"@ + "\n"@,
        *news matches AlarmNews::Failed(error) ==> r@ == id@ + ": "@ + ("audio playback failed: "@
            + error@) + "\n"@,
        *news matches AlarmNews::Scheduled { seconds, source: Some(path) } ==> r@ == id@ + ": "@ + (
        "scheduled in "@ + decimal(seconds as nat) + "s; source="@ + path@) + "\n"@,
        *news matches AlarmNews::Scheduled { seconds, source: None } ==> r@ == id@ + ": "@ + (
        "scheduled in "@ + decimal(seconds as nat) + "s; source="@ + "builtin"@) + "\n"@,
{
}

/// A turn has the tools of its mode where tools are on: skills where those are on
/// too, writing them in the normal mode alone, and questions where they can be
/// answered.
pub proof fn law_turns_have_the_tools_of_their_mode(
    tools: bool,
    skills: bool,
    mode: AgentMode,
    questions: bool,
    r: ToolPlan,
)
    requires
        call_ensures(build_tool_registry, (tools, skills, mode, questions), r),
    ensures
        !tools ==> r.base is Empty && !r.skills && !r.skill_authoring && !r.ask_question,
        tools && mode is Normal ==> r.base is Builtin,
        tools && mode is Plan ==> r.base is Readonly,
        tools && mode is Chat ==> r.base is Chat,
        tools ==> r.skills == skills && r.ask_question == questions,
        r.skill_authoring <==> tools && skills && mode is Normal,
{
}

/// Both output flags are set, and every flag that was set stays.
pub proof fn law_output_flags_are_added(flags: u32, process: u32, lines_flag: u32, r: u32)
    requires
        call_ensures(restore_live_output_processing, (flags, process, lines_flag), r),
    ensures
        r & flags == flags,
        r & process == process,
        r & lines_flag == lines_flag,
        r & !(flags | process | lines_flag) == 0,
{
    assert((flags | (process | lines_flag)) & flags == flags) by (bit_vector);
    assert((flags | (process | lines_flag)) & process == process) by (bit_vector);
    assert((flags | (process | lines_flag)) & lines_flag == lines_flag) by (bit_vector);
    assert((flags | (process | lines_flag)) & !(flags | process | lines_flag) == 0) by (bit_vector);
}

/// The prompt comes from the file of the persona where that is there, else from
/// the custom text where there is some, else it is the built-in one.
pub proof fn law_prompt_source_is_reported(facts: &PromptFacts, r: Vec<String>)
    requires
        call_ensures(run_config, (facts,), r),
    ensures
        facts.persona_file is Some && facts.persona_file_exists ==> r@[0]@ == "base_prompt_source"@
            + ": "@ + ("persona ("@ + facts.persona_file->0@ + ")"@),
        !(facts.persona_file is Some && facts.persona_file_exists) && trimmed(
            facts.custom_prompt@,
        ).len() > 0 ==> r@[0]@ == "base_prompt_source"@ + ": "@ + ("legacy_custom ("@
            + facts.custom_prompt_file@ + ")"@),
        !(facts.persona_file is Some && facts.persona_file_exists) && trimmed(
            facts.custom_prompt@,
        ).len() == 0 ==> r@[0]@ == "base_prompt_source"@ + ": "@ + "built-in"@,
        trimmed(facts.persona@).len() > 0 ==> r@[1]@ == "active_persona"@ + ": "@ + trimmed(
            facts.persona@,
        ),
        trimmed(facts.persona@).len() == 0 ==> r@[1]@ == "active_persona"@ + ": "@ + "(none)"@,
        facts.persona_file is Some ==> r@.len() == 8 && r@[2]@ == "active_persona_file"@ + ": "@
            + facts.persona_file->0@,
        facts.persona_file is None ==> r@.len() == 7,
        r@[r@.len() - 1]@ == "system_prompt_chars"@ + ": "@ + decimal(facts.system_prompt@.len()),
{
    let n = r@.len() as int;
    assert(texts(r@).len() == n);
    assert(texts(r@)[0] == r@[0]@);
    assert(texts(r@)[1] == r@[1]@);
    assert(texts(r@)[2] == r@[2]@);
    assert(texts(r@)[n - 1] == r@[n - 1]@);
}

} // verus!
