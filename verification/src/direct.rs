//! The prompt that runs turns in its own process: what a line asks for, and what
//! becomes of the figures.
use crate::commands::{
    behind_word, command_name, completion, resolve_repl_command, split_repl_command, word_len,
    ReplSlashCommand,
};
use crate::echo::{dim, dim_text, red, red_text};
use crate::editor::{EditorState, LiveReplEditor};
use crate::footer::{
    endpoint_label, mixed_model_endpoint_label, names_endpoint, result_context_window,
    show_mixed_model_endpoint, window_of_result, with_cumulative, ModelConfig, ReplFooterStatus,
};
use crate::jobs::{opt_string, opt_text};
use crate::lang::{pick, t, Lang};
use crate::notes::{
    counted_label, counted_label_text, dim_note, dim_note_text, error_of, error_text, red_note,
    red_note_text,
};
use crate::pop::{parse_repl_pop_count, pop_argument};
use crate::repl::{some_text, unless_blank};
use crate::text::{begins_with, lower, lower_char, same_ignoring_case, trim, trimmed};
use crate::tokens::{
    cumulative_meter, meter_of_turn, tokens_of, tokens_sum, ChatResult, TokenMeter,
    TurnTokens,
};
use vstd::prelude::*;
use vstd::string::*;

verus! {

/// What a line asks for.
#[derive(Debug)]
pub enum DirectAction {
    Idle,
    Leave,
    Help,
    ShowUsage,
    PickPersona(String),
    PickModels(Option<String>),
    OpenConfig,
    PickVariant(Option<String>),
    Undo,
    Pop(Option<usize>),
    /// A line for the error stream.
    Complain(String),
    Compact,
    Reset,
    Wipe,
    RunTurn(String),
}

/// What a line asks for, as text.
pub enum Direct {
    Idle,
    Leave,
    Help,
    ShowUsage,
    PickPersona(Seq<char>),
    PickModels(Option<Seq<char>>),
    OpenConfig,
    PickVariant(Option<Seq<char>>),
    Undo,
    Pop(Option<usize>),
    Complain(Seq<char>),
    Compact,
    Reset,
    Wipe,
    RunTurn(Seq<char>),
}

pub open spec fn direct_of(a: DirectAction) -> Direct {
    match a {
        DirectAction::Idle => Direct::Idle,
        DirectAction::Leave => Direct::Leave,
        DirectAction::Help => Direct::Help,
        DirectAction::ShowUsage => Direct::ShowUsage,
        DirectAction::PickPersona(args) => Direct::PickPersona(args@),
        DirectAction::PickModels(arg) => Direct::PickModels(opt_string(arg)),
        DirectAction::OpenConfig => Direct::OpenConfig,
        DirectAction::PickVariant(arg) => Direct::PickVariant(opt_string(arg)),
        DirectAction::Undo => Direct::Undo,
        DirectAction::Pop(count) => Direct::Pop(count),
        DirectAction::Complain(text) => Direct::Complain(text@),
        DirectAction::Compact => Direct::Compact,
        DirectAction::Reset => Direct::Reset,
        DirectAction::Wipe => Direct::Wipe,
        DirectAction::RunTurn(text) => Direct::RunTurn(text@),
    }
}

/// The first word of a line, completed where it can only become one command.
pub open spec fn completed_word(input: Seq<char>) -> Seq<char> {
    let word = input.take(word_len(input) as int);
    match completion(word) {
        Some(c) => command_name(c),
        None => word,
    }
}

/// The word is the name of the command, in any case.
pub open spec fn is_word(word: Seq<char>, name: Seq<char>) -> bool {
    lower(word) == lower(name)
}

/// What a line asks for. A command of the other prompt, and one that takes no
/// argument but has some, goes to the model like any other text.
pub open spec fn direct_line(lang: Lang, line: Seq<char>) -> Direct {
    let input = trimmed(line);
    let word = completed_word(input);
    let args = behind_word(input);
    let bare = trimmed(args).len() == 0;
    if is_word(input, "exit"@) || is_word(input, "quit"@) || (is_word(word, "/exit"@) && bare) {
        Direct::Leave
    } else if is_word(word, "/help"@) && bare {
        Direct::Help
    } else if is_word(word, "/usage"@) && bare {
        Direct::ShowUsage
    } else if is_word(word, "/persona"@) {
        Direct::PickPersona(args)
    } else if is_word(word, "/models"@) {
        Direct::PickModels(unless_blank(trimmed(args)))
    } else if is_word(word, "/config"@) && bare {
        Direct::OpenConfig
    } else if is_word(word, "/variant"@) {
        Direct::PickVariant(unless_blank(trimmed(args)))
    } else if is_word(word, "/undo"@) && bare {
        Direct::Undo
    } else if is_word(word, "/pop"@) {
        match pop_argument(lang, args) {
            Ok(count) => Direct::Pop(count),
            Err(note) => Direct::Complain(red(error_of(lang, note))),
        }
    } else if is_word(word, "/compact"@) && bare {
        Direct::Compact
    } else if is_word(word, "/reset"@) && bare {
        Direct::Reset
    } else if is_word(word, "/wipe"@) {
        Direct::Wipe
    } else if input.len() == 0 {
        Direct::Idle
    } else {
        Direct::RunTurn(input)
    }
}

/// What a submitted line asks for.
pub fn run_direct_repl(lang: Lang, line: &str) -> (r: DirectAction)
    ensures
        direct_of(r) == direct_line(lang, line@),
{
    let input = trim(line);
    let (first, args) = split_repl_command(input);
    let word = resolve_repl_command(first);
    let bare = trim(args).is_empty();
    if same_ignoring_case(input, "exit") || same_ignoring_case(input, "quit") || (
    same_ignoring_case(word, "/exit") && bare) {
        DirectAction::Leave
    } else if same_ignoring_case(word, "/help") && bare {
        DirectAction::Help
    } else if same_ignoring_case(word, "/usage") && bare {
        DirectAction::ShowUsage
    } else if same_ignoring_case(word, "/persona") {
        DirectAction::PickPersona(args.to_owned())
    } else if same_ignoring_case(word, "/models") {
        DirectAction::PickModels(some_text(trim(args)))
    } else if same_ignoring_case(word, "/config") && bare {
        DirectAction::OpenConfig
    } else if same_ignoring_case(word, "/variant") {
        DirectAction::PickVariant(some_text(trim(args)))
    } else if same_ignoring_case(word, "/undo") && bare {
        DirectAction::Undo
    } else if same_ignoring_case(word, "/pop") {
        match parse_repl_pop_count(lang, args) {
            Ok(count) => DirectAction::Pop(count),
            Err(note) => {
                let text = error_text(lang, note.as_str());
                DirectAction::Complain(red_text(text.as_str()))
            },
        }
    } else if same_ignoring_case(word, "/compact") && bare {
        DirectAction::Compact
    } else if same_ignoring_case(word, "/reset") && bare {
        DirectAction::Reset
    } else if same_ignoring_case(word, "/wipe") {
        DirectAction::Wipe
    } else if input.is_empty() {
        DirectAction::Idle
    } else {
        DirectAction::RunTurn(input.to_owned())
    }
}

/// The figures of the prompt.
#[derive(Debug)]
pub struct DirectRepl {
    pub footer: ReplFooterStatus,
    pub cumulative: TurnTokens,
    pub show_shortcut_hint: bool,
}

/// What a compaction behind a turn came to.
#[derive(Debug)]
pub enum Overflow {
    NotNeeded,
    Compacted(ChatResult),
    Failed(String),
}

/// The window of the model that answered, else that of the conversation.
pub open spec fn window_or(own: Option<usize>, other: Option<usize>) -> Option<usize> {
    match own {
        Some(w) => Some(w),
        None => other,
    }
}

/// The footer behind a turn whose usage is known; else as it was.
pub open spec fn footer_after_turn(
    footer: ReplFooterStatus,
    result: ChatResult,
    tokens: u64,
    window: Option<usize>,
    cumulative: TurnTokens,
) -> ReplFooterStatus {
    ReplFooterStatus {
        token_usage: match result.usage {
            Some(_) => meter_of_turn(tokens_of(result.usage), tokens, window, cumulative),
            None => footer.token_usage,
        },
        ..footer
    }
}

/// The total with what a result used, where that is known.
pub open spec fn total_with(total: TurnTokens, result: ChatResult) -> TurnTokens {
    if result.usage is Some {
        tokens_sum(total, tokens_of(result.usage))
    } else {
        total
    }
}

/// The line that names the model of a reply, where it is to be named.
pub open spec fn endpoint_frame(
    named: bool,
    result: ChatResult,
    variant: Option<Seq<char>>,
) -> Option<Seq<char>> {
    if named {
        Some(
            dim_note(
                endpoint_label(
                    match opt_string(result.provider_id) {
                        Some(p) => p,
                        None => "-"@,
                    },
                    match opt_string(result.model) {
                        Some(m) => m,
                        None => "-"@,
                    },
                    variant,
                ),
            ),
        )
    } else {
        None
    }
}

impl DirectRepl {
    /// A turn is done: it is counted, and the line that names its model is
    /// given where there is one.
    pub fn turn_finished(
        &mut self,
        result: &ChatResult,
        config: &ModelConfig,
        variant: Option<&str>,
        tokens: u64,
        window: Option<usize>,
    ) -> (r: Option<String>)
        ensures
            *final(self) == (DirectRepl {
                cumulative: total_with(old(self).cumulative, *result),
                footer: footer_after_turn(
                    old(self).footer,
                    *result,
                    tokens,
                    window_or(window_of_result(*config, *result), window),
                    total_with(old(self).cumulative, *result),
                ),
                ..*old(self)
            }),
            opt_string(r) == endpoint_frame(
                names_endpoint(*config, true),
                *result,
                opt_text(variant),
            ),
    {
        let own = result_context_window(config, result);
        let shown = match own {
            Some(w) => Some(w),
            None => window,
        };
        self.cumulative.add_result(result);
        self.footer.update_token_usage(result, tokens, shown, self.cumulative);
        let named = show_mixed_model_endpoint(config, true);
        if !named {
            return None;
        }
        let provider = match &result.provider_id {
            Some(p) => p.as_str(),
            None => "-",
        };
        let model = match &result.model {
            Some(m) => m.as_str(),
            None => "-",
        };
        let label = mixed_model_endpoint_label(provider, model, variant);
        Some(dim_note_text(label.as_str()))
    }

    /// What followed the turn: a compaction is counted too; one that failed is
    /// reported and the footer left as it is.
    pub fn overflow_handled(
        &mut self,
        lang: Lang,
        turn: &ChatResult,
        overflow: &Overflow,
        tokens: u64,
        window: Option<usize>,
    ) -> (r: Option<String>)
        ensures
            match *overflow {
                Overflow::NotNeeded => r is None && *final(self) == (DirectRepl {
                    footer: ReplFooterStatus {
                        token_usage: TokenMeter {
                            session_tokens: tokens,
                            ..old(self).footer.token_usage
                        },
                        ..old(self).footer
                    },
                    show_shortcut_hint: false,
                    ..*old(self)
                }),
                Overflow::Compacted(result) => r is None && *final(self) == (DirectRepl {
                    cumulative: total_with(old(self).cumulative, result),
                    footer: ReplFooterStatus {
                        token_usage: meter_of_turn(
                            total_with(tokens_of(turn.usage), result),
                            tokens,
                            window,
                            total_with(old(self).cumulative, result),
                        ),
                        ..old(self).footer
                    },
                    show_shortcut_hint: false,
                }),
                Overflow::Failed(message) => *final(self) == *old(self) && opt_string(r) == Some(
                    red_note(error_of(lang, message@)),
                ),
            },
    {
        match overflow {
            Overflow::NotNeeded => {
                self.footer.update_session_tokens(tokens);
                self.show_shortcut_hint = false;
                None
            },
            Overflow::Compacted(result) => {
                let mut spent = match &turn.usage {
                    Some(usage) => TurnTokens::from_usage(Some(usage)),
                    None => TurnTokens::none(),
                };
                self.cumulative.add_result(result);
                spent.add_result(result);
                self.footer.set_token_usage_with_cache(spent, tokens, window, self.cumulative);
                self.show_shortcut_hint = false;
                None
            },
            Overflow::Failed(message) => {
                let text = error_text(lang, message.as_str());
                Some(red_note_text(text.as_str()))
            },
        }
    }

    /// A turn was cut off: it stays in the context, so the figures are taken
    /// anew as far as they are known.
    pub fn turn_cancelled(&mut self, total: Option<TurnTokens>, tokens: u64)
        ensures
            ({
                let cumulative = match total {
                    Some(t) => t,
                    None => old(self).cumulative,
                };
                *final(self) == (DirectRepl {
                    cumulative,
                    footer: ReplFooterStatus {
                        token_usage: with_cumulative(
                            TokenMeter {
                                session_tokens: tokens,
                                ..old(self).footer.token_usage
                            },
                            cumulative,
                        ),
                        ..old(self).footer
                    },
                    ..*old(self)
                })
            }),
    {
        if let Some(t) = total {
            self.cumulative = t;
        }
        self.footer.update_session_tokens(tokens);
        self.footer.update_cumulative_tokens(self.cumulative);
    }

    /// The context was compacted on demand; without a result nothing was to be
    /// compacted.
    pub fn compacted(&mut self, lang: Lang, result: Option<&ChatResult>, tokens: u64, window: Option<usize>) -> (
        r: Option<String>)
        ensures
            match result {
                Some(result) => r is None && *final(self) == (DirectRepl {
                    cumulative: total_with(old(self).cumulative, *result),
                    footer: footer_after_turn(
                        old(self).footer,
                        *result,
                        tokens,
                        window,
                        total_with(old(self).cumulative, *result),
                    ),
                    ..*old(self)
                }),
                None => opt_string(r) == Some(
                    dim(pick(lang, "nothing to compact"@, "没有可压缩的上下文"@)),
                ) && *final(self) == (DirectRepl {
                    footer: ReplFooterStatus {
                        token_usage: TokenMeter {
                            session_tokens: tokens,
                            ..old(self).footer.token_usage
                        },
                        ..old(self).footer
                    },
                    ..*old(self)
                }),
            },
    {
        match result {
            Some(result) => {
                self.cumulative.add_result(result);
                self.footer.update_token_usage(result, tokens, window, self.cumulative);
                None
            },
            None => {
                self.footer.update_session_tokens(tokens);
                Some(dim_text(t(lang, "nothing to compact", "没有可压缩的上下文")))
            },
        }
    }

    /// The conversation was reset or wiped: nothing has been spent.
    pub fn forgotten(&mut self, tokens: u64, window: Option<usize>)
        ensures
            *final(self) == (DirectRepl {
                cumulative: TurnTokens { total: 0, prompt: 0, cache_read: 0 },
                footer: ReplFooterStatus {
                    token_usage: TokenMeter {
                        session_tokens: tokens,
                        context_window: window,
                        ..cumulative_meter(TurnTokens { total: 0, prompt: 0, cache_read: 0 })
                    },
                    ..old(self).footer
                },
                ..*old(self)
            }),
    {
        self.cumulative = TurnTokens::none();
        self.footer.reset_token_usage(tokens, window);
    }
}

/// The total that is shown behind a compaction: counted where its usage is known
/// and a total is kept, nothing else.
pub fn handle_post_turn_overflow(total: &mut TurnTokens, result: &ChatResult) -> (r: TurnTokens)
    ensures
        *final(total) == total_with(*old(total), *result),
        r == if result.usage is Some {
            *final(total)
        } else {
            TurnTokens { total: 0, prompt: 0, cache_read: 0 }
        },
{
    total.add_result(result);
    if result.usage.is_some() {
        *total
    } else {
        TurnTokens::none()
    }
}

/// What is said of an undo. One that took messages back but has no prompt undid
/// a compaction.
pub fn undo_note(lang: Lang, removed: u64, has_prompt: bool) -> (r: String)
    ensures
        r@ == if removed > 0 && !has_prompt {
            pick(lang, "context compaction undone"@, "已撤销上下文压缩"@)
        } else {
            counted_label(pick(lang, "undone messages"@, "已撤销消息数"@), removed)
        },
{
    if removed > 0 && !has_prompt {
        t(lang, "context compaction undone", "已撤销上下文压缩").to_owned()
    } else {
        counted_label_text(t(lang, "undone messages", "已撤销消息数"), removed)
    }
}

impl LiveReplEditor {
    /// Puts a prompt on the input line, with the cursor behind it.
    pub fn prefill(&mut self, prompt: String)
        ensures
            final(self)@ == (EditorState {
                input: prompt@,
                cursor: prompt@.len() as int,
                clean: None,
                ..old(self)@
            }),
    {
        self.cursor = prompt.as_str().unicode_len();
        self.input = prompt;
        self.history_clean_index = None;
    }

    /// Empties the input line.
    pub fn clear_input(&mut self)
        ensures
            final(self)@ == (EditorState { input: Seq::empty(), cursor: 0, ..old(self)@ }),
    {
        self.input = String::new();
        self.cursor = 0;
    }
}

/// A command does what its name says, in whatever case it is typed; one that takes
/// no argument goes to the model where it has some, and so does a command of the
/// other prompt. Any other text goes to the model too, a blank line does nothing,
/// and `exit` and `quit` leave.
pub proof fn law_typed_lines_do_what_they_name(lang: Lang, line: &str, r: DirectAction)
    requires
        call_ensures(run_direct_repl, (lang, line), r),
    ensures
        ({
            let input = trimmed(line@);
            let word = lower(input.take(word_len(input) as int));
            let args = behind_word(input);
            let bare = trimmed(args).len() == 0;
            let did = direct_of(r);
            &&& word == "/exit"@ && bare ==> did is Leave
            &&& word == "/exit"@ && !bare ==> did == Direct::RunTurn(input)
            &&& word == "/help"@ && bare ==> did is Help
            &&& word == "/help"@ && !bare ==> did == Direct::RunTurn(input)
            &&& word == "/usage"@ && bare ==> did is ShowUsage
            &&& word == "/usage"@ && !bare ==> did == Direct::RunTurn(input)
            &&& word == "/config"@ && bare ==> did is OpenConfig
            &&& word == "/config"@ && !bare ==> did == Direct::RunTurn(input)
            &&& word == "/undo"@ && bare ==> did is Undo
            &&& word == "/undo"@ && !bare ==> did == Direct::RunTurn(input)
            &&& word == "/compact"@ && bare ==> did is Compact
            &&& word == "/compact"@ && !bare ==> did == Direct::RunTurn(input)
            &&& word == "/reset"@ && bare ==> did is Reset
            &&& word == "/reset"@ && !bare ==> did == Direct::RunTurn(input)
            &&& word == "/wipe"@ ==> did is Wipe
            &&& word == "/persona"@ ==> did == Direct::PickPersona(args)
            &&& word == "/models"@ && bare ==> did == Direct::PickModels(None)
            &&& word == "/models"@ && !bare ==> did == Direct::PickModels(Some(trimmed(args)))
            &&& word == "/variant"@ && bare ==> did == Direct::PickVariant(None)
            &&& word == "/variant"@ && !bare ==> did == Direct::PickVariant(Some(trimmed(args)))
            &&& word == "/pop"@ ==> match pop_argument(lang, args) {
                Ok(count) => did == Direct::Pop(count),
                Err(_) => did is Complain,
            }
            &&& word == "/new"@ ==> did == Direct::RunTurn(input)
            &&& word == "/session"@ ==> did == Direct::RunTurn(input)
            &&& word == "/rename"@ ==> did == Direct::RunTurn(input)
            &&& word == "/archive"@ ==> did == Direct::RunTurn(input)
            &&& word == "/delete"@ ==> did == Direct::RunTurn(input)
            &&& word == "/workspace"@ ==> did == Direct::RunTurn(input)
            &&& word == "/history"@ ==> did == Direct::RunTurn(input)
            &&& word == "/clear"@ ==> did == Direct::RunTurn(input)
            &&& lower(input) == lower("exit"@) || lower(input) == lower("quit"@) ==> did is Leave
            &&& input.len() == 0 ==> did is Idle
            &&& input.len() > 0 && input[0] != '/' && lower(input) != lower("exit"@) && lower(input)
                != lower("quit"@) ==> did == Direct::RunTurn(input)
        }),
{
    let input = trimmed(line@);
    let first = input.take(word_len(input) as int);
    crate::commands::lemma_word_len(input);
    lemma_slashed(input);
    crate::commands::lemma_names_are_small(ReplSlashCommand::New);
    crate::commands::lemma_names_are_small(ReplSlashCommand::Session);
    crate::commands::lemma_names_are_small(ReplSlashCommand::Rename);
    crate::commands::lemma_names_are_small(ReplSlashCommand::Archive);
    crate::commands::lemma_names_are_small(ReplSlashCommand::Delete);
    crate::commands::lemma_names_are_small(ReplSlashCommand::Workspace);
    crate::commands::lemma_names_are_small(ReplSlashCommand::Models);
    crate::commands::lemma_names_are_small(ReplSlashCommand::Persona);
    crate::commands::lemma_names_are_small(ReplSlashCommand::Usage);
    crate::commands::lemma_names_are_small(ReplSlashCommand::Config);
    crate::commands::lemma_names_are_small(ReplSlashCommand::Variant);
    crate::commands::lemma_names_are_small(ReplSlashCommand::Undo);
    crate::commands::lemma_names_are_small(ReplSlashCommand::Pop);
    crate::commands::lemma_names_are_small(ReplSlashCommand::Compact);
    crate::commands::lemma_names_are_small(ReplSlashCommand::Reset);
    crate::commands::lemma_names_are_small(ReplSlashCommand::Wipe);
    crate::commands::lemma_names_are_small(ReplSlashCommand::History);
    crate::commands::lemma_names_are_small(ReplSlashCommand::Clear);
    crate::commands::lemma_names_are_small(ReplSlashCommand::Help);
    crate::commands::lemma_names_are_small(ReplSlashCommand::Exit);
    if lower(first) == "/new"@ {
        lemma_named(input, ReplSlashCommand::New);
    }
    if lower(first) == "/session"@ {
        lemma_named(input, ReplSlashCommand::Session);
    }
    if lower(first) == "/rename"@ {
        lemma_named(input, ReplSlashCommand::Rename);
    }
    if lower(first) == "/archive"@ {
        lemma_named(input, ReplSlashCommand::Archive);
    }
    if lower(first) == "/delete"@ {
        lemma_named(input, ReplSlashCommand::Delete);
    }
    if lower(first) == "/workspace"@ {
        lemma_named(input, ReplSlashCommand::Workspace);
    }
    if lower(first) == "/models"@ {
        lemma_named(input, ReplSlashCommand::Models);
    }
    if lower(first) == "/persona"@ {
        lemma_named(input, ReplSlashCommand::Persona);
    }
    if lower(first) == "/usage"@ {
        lemma_named(input, ReplSlashCommand::Usage);
    }
    if lower(first) == "/config"@ {
        lemma_named(input, ReplSlashCommand::Config);
    }
    if lower(first) == "/variant"@ {
        lemma_named(input, ReplSlashCommand::Variant);
    }
    if lower(first) == "/undo"@ {
        lemma_named(input, ReplSlashCommand::Undo);
    }
    if lower(first) == "/pop"@ {
        lemma_named(input, ReplSlashCommand::Pop);
    }
    if lower(first) == "/compact"@ {
        lemma_named(input, ReplSlashCommand::Compact);
    }
    if lower(first) == "/reset"@ {
        lemma_named(input, ReplSlashCommand::Reset);
    }
    if lower(first) == "/wipe"@ {
        lemma_named(input, ReplSlashCommand::Wipe);
    }
    if lower(first) == "/history"@ {
        lemma_named(input, ReplSlashCommand::History);
    }
    if lower(first) == "/clear"@ {
        lemma_named(input, ReplSlashCommand::Clear);
    }
    if lower(first) == "/help"@ {
        lemma_named(input, ReplSlashCommand::Help);
    }
    if lower(first) == "/exit"@ {
        lemma_named(input, ReplSlashCommand::Exit);
    }
}

/// Only what begins with a slash is completed, or taken for a command.
proof fn lemma_slashed(input: Seq<char>)
    ensures
        input.len() > 0 && input[0] == '/' ==> lower(input) != lower("exit"@) && lower(input)
            != lower("quit"@),
        input.len() == 0 ==> lower(input) != lower("exit"@) && lower(input) != lower("quit"@),
        input.len() == 0 || input[0] != '/' ==> forall|c: ReplSlashCommand|
            lower(completed_word(input)) != #[trigger] command_name(c),
{
    reveal_strlit("/");
    reveal_strlit("exit");
    reveal_strlit("quit");
    crate::commands::lemma_word_len(input);
    assert(lower("exit"@)[0] == lower_char('e'));
    assert(lower("quit"@)[0] == lower_char('q'));
    assert(lower("exit"@).len() == 4 && lower("quit"@).len() == 4);
    assert(lower(input).len() == input.len());
    if input.len() > 0 {
        assert(lower(input)[0] == lower_char(input[0]));
    }
    if input.len() == 0 || input[0] != '/' {
        let word = input.take(word_len(input) as int);
        if begins_with(word, "/"@) {
            assert(word.take(1)[0] == word[0]);
            assert("/"@[0] == '/');
        }
        assert(completion(word) is None);
        assert forall|c: ReplSlashCommand| lower(completed_word(input)) != #[trigger] command_name(
            c,
        ) by {
            crate::commands::lemma_names_are_small(c);
            if word.len() > 0 {
                assert(lower(word)[0] == lower_char(word[0]));
            }
        }
    }
}

/// The word of a line is one of the names, and no other.
proof fn lemma_named(input: Seq<char>, c: ReplSlashCommand)
    requires
        lower(input.take(word_len(input) as int)) == command_name(c),
    ensures
        lower(completed_word(input)) == command_name(c),
        forall|d: ReplSlashCommand| #[trigger] command_name(d) == command_name(c) ==> d == c,
        input.len() > 0,
        input[0] == '/',
{
    let word = input.take(word_len(input) as int);
    crate::commands::lemma_word_len(input);
    crate::commands::lemma_names_are_small(c);
    crate::commands::law_full_name_is_completed_to_itself(c, word);
    assert(lower(word).len() == word.len());
    assert(lower(word)[0] == lower_char(word[0]));
    assert forall|d: ReplSlashCommand| #[trigger] command_name(d) == command_name(c) implies d == c by {
        crate::commands::law_commands_are_distinct(d, c);
    }
}

/// A turn is added to the total once, and the footer shows its window: that of the
/// model that answered where it is known. What is not about the turn stays.
pub proof fn law_turns_are_counted_once(
    repl: &mut DirectRepl,
    result: &ChatResult,
    config: &ModelConfig,
    variant: Option<&str>,
    tokens: u64,
    window: Option<usize>,
    r: Option<String>,
)
    requires
        call_ensures(
            DirectRepl::turn_finished,
            (repl, result, config, variant, tokens, window),
            r,
        ),
    ensures
        final(repl).show_shortcut_hint == old(repl).show_shortcut_hint,
        result.usage is None ==> final(repl).cumulative == old(repl).cumulative && final(repl).footer == old(repl).footer,
        result.usage is Some ==> final(repl).cumulative == tokens_sum(
            old(repl).cumulative,
            tokens_of(result.usage),
        ) && final(repl).footer.token_usage.session_tokens == tokens,
        result.usage is Some && window_of_result(*config, *result) is Some ==> final(repl).footer.token_usage.context_window == window_of_result(*config, *result),
        result.usage is Some && window_of_result(*config, *result) is None ==> final(repl).footer.token_usage.context_window == window,
        r is Some <==> names_endpoint(*config, true),
{
}

/// A compaction behind a turn is counted with the turn; one that failed is
/// reported and changes nothing, and one that was not needed leaves the total.
pub proof fn law_compaction_behind_a_turn(
    repl: &mut DirectRepl,
    lang: Lang,
    turn: &ChatResult,
    overflow: &Overflow,
    tokens: u64,
    window: Option<usize>,
    r: Option<String>,
)
    requires
        call_ensures(
            DirectRepl::overflow_handled,
            (repl, lang, turn, overflow, tokens, window),
            r,
        ),
    ensures
        r is Some <==> *overflow is Failed,
        *overflow is Failed ==> *final(repl) == *old(repl),
        !(*overflow is Failed) ==> !final(repl).show_shortcut_hint && final(repl).footer.token_usage.session_tokens == tokens,
        *overflow is NotNeeded ==> final(repl).cumulative == old(repl).cumulative,
        *overflow matches Overflow::Compacted(result) ==> result.usage is Some ==> final(repl).cumulative == tokens_sum(old(repl).cumulative, tokens_of(result.usage)),
        *overflow matches Overflow::Compacted(result) ==> result.usage is None ==> final(repl).cumulative == old(repl).cumulative,
{
}

/// A turn that was cut off takes the total that is known of it, else keeps the
/// one before; the context is what it is now.
pub proof fn law_cut_off_turns_stay_counted(repl: &mut DirectRepl, total: Option<TurnTokens>, tokens: u64)
    requires
        call_ensures(DirectRepl::turn_cancelled, (repl, total, tokens), ()),
    ensures
        total matches Some(t) ==> final(repl).cumulative == t,
        total is None ==> final(repl).cumulative == old(repl).cumulative,
        final(repl).footer.token_usage.session_tokens == tokens,
        final(repl).show_shortcut_hint == old(repl).show_shortcut_hint,
{
}

/// Forgetting a conversation takes every total back to nothing.
pub proof fn law_forgetting_clears_the_totals(repl: &mut DirectRepl, tokens: u64, window: Option<usize>)
    requires
        call_ensures(DirectRepl::forgotten, (repl, tokens, window), ()),
    ensures
        final(repl).cumulative.total == 0,
        final(repl).cumulative.prompt == 0,
        final(repl).cumulative.cache_read == 0,
        final(repl).footer.token_usage.session_tokens == tokens,
        final(repl).footer.token_usage.context_window == window,
        final(repl).show_shortcut_hint == old(repl).show_shortcut_hint,
{
}

/// A compaction on demand is counted where its usage is known; without a result
/// that is said, and the total stays.
pub proof fn law_compaction_on_demand(
    repl: &mut DirectRepl,
    lang: Lang,
    result: Option<&ChatResult>,
    tokens: u64,
    window: Option<usize>,
    r: Option<String>,
)
    requires
        call_ensures(DirectRepl::compacted, (repl, lang, result, tokens, window), r),
    ensures
        r is None <==> result is Some,
        result is None ==> final(repl).cumulative == old(repl).cumulative && final(repl).footer.token_usage.session_tokens == tokens,
        result matches Some(result) ==> result.usage is Some ==> final(repl).cumulative
            == tokens_sum(old(repl).cumulative, tokens_of(result.usage)) && final(repl).footer.token_usage.session_tokens == tokens,
        result matches Some(result) ==> result.usage is None ==> final(repl).cumulative == old(repl).cumulative,
        final(repl).show_shortcut_hint == old(repl).show_shortcut_hint,
{
}

/// What a compaction used goes into the total, and the new total is shown.
pub proof fn law_compaction_goes_into_the_total(total: &mut TurnTokens, result: &ChatResult, r: TurnTokens)
    requires
        call_ensures(handle_post_turn_overflow, (total, result), r),
    ensures
        result.usage is Some ==> *final(total) == tokens_sum(*old(total), tokens_of(result.usage))
            && r == *final(total),
        result.usage is None ==> *final(total) == *old(total) && r.total == 0 && r.prompt == 0
            && r.cache_read == 0,
{
}

/// An undo says how many messages went, and that a compaction went where there
/// was no prompt among them.
pub proof fn law_undo_says_what_went(lang: Lang, removed: u64, has_prompt: bool, r: String)
    requires
        call_ensures(undo_note, (lang, removed, has_prompt), r),
    ensures
        has_prompt || removed == 0 ==> r@ == counted_label(
            pick(lang, "undone messages"@, "已撤销消息数"@),
            removed,
        ),
        !has_prompt && removed > 0 ==> r@ == pick(
            lang,
            "context compaction undone"@,
            "已撤销上下文压缩"@,
        ),
{
}

/// A prompt that is taken back stands on the line with the cursor at its end; a
/// line that is emptied has the cursor at its start. The history stays.
pub proof fn law_prompts_are_put_back(
    editor: &mut LiveReplEditor,
    prompt: String,
    other: &mut LiveReplEditor,
)
    requires
        call_ensures(LiveReplEditor::prefill, (editor, prompt), ()),
        call_ensures(LiveReplEditor::clear_input, (other,), ()),
    ensures
        final(editor)@.input == prompt@,
        final(editor)@.cursor == prompt@.len(),
        final(editor)@.history == old(editor)@.history,
        final(other)@.input.len() == 0,
        final(other)@.cursor == 0,
        final(other)@.history == old(other)@.history,
{
}

} // verus!
