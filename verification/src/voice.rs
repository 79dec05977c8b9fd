//! Talking with the assistant: how a conversation by voice goes from one phase to
//! the next.
use crate::args::VoiceArgs;
use crate::jobs::opt_string;
use crate::lang::{pick, t, Lang};
use crate::notes::{error_of, error_text};
use crate::text::{
    begins_with, find_text, lower, lowercase, occurs_at, same, starts_with, texts, to_chars, trim,
    trimmed,
};
use vstd::prelude::*;
use vstd::string::*;

verus! {

/// The settings of a conversation by voice.
#[derive(Debug)]
pub struct VoiceSettings {
    pub enabled: bool,
    pub wake_enabled: bool,
    pub wake_word: String,
    pub speak_replies: bool,
    /// What speaks.
    pub tts_backend: String,
    /// The voice of one of the backends, which has several.
    pub xiaomi_tts_voice: String,
}

impl VoiceSettings {
    /// Something speaks at all.
    pub open spec fn speaks(&self) -> bool {
        self.tts_backend@ != "none"@
    }

    pub fn has_speech(&self) -> (r: bool)
        ensures
            r == self.speaks(),
    {
        !same(self.tts_backend.as_str(), "none")
    }

    /// The wake word is that of the persona, and so is the voice, where the
    /// backend has one to choose.
    pub fn with_persona(self, wake_word: String, voice: String) -> (r: Self)
        ensures
            r == (VoiceSettings {
                wake_word,
                xiaomi_tts_voice: if self.tts_backend@ == "xiaomi"@ {
                    voice
                } else {
                    self.xiaomi_tts_voice
                },
                ..self
            }),
    {
        let mut r = self;
        r.wake_word = wake_word;
        if same(r.tts_backend.as_str(), "xiaomi") {
            r.xiaomi_tts_voice = voice;
        }
        r
    }

    /// What was given on the command line goes before the settings; a blank wake
    /// word says nothing.
    pub fn with_args(self, args: &VoiceArgs) -> (r: Self)
        ensures
            r.enabled == self.enabled,
            r.tts_backend == self.tts_backend,
            r.xiaomi_tts_voice == self.xiaomi_tts_voice,
            r.wake_enabled == (self.wake_enabled && !args.no_wake),
            r.speak_replies == (self.speak_replies && !args.no_tts),
            r.wake_word@ == match opt_string(args.wake_word) {
                Some(word) => if trimmed(word).len() == 0 {
                    self.wake_word@
                } else {
                    trimmed(word)
                },
                None => self.wake_word@,
            },
    {
        let mut r = self;
        if args.no_wake {
            r.wake_enabled = false;
        }
        if let Some(word) = &args.wake_word {
            let word = trim(word.as_str());
            if !word.is_empty() {
                r.wake_word = word.to_owned();
            }
        }
        if args.no_tts {
            r.speak_replies = false;
        }
        r
    }

    /// Whether a wake word has to be spoken first.
    pub fn waits_for_wake(&self) -> (r: bool)
        ensures
            r == self.waits(),
    {
        self.wake_enabled && !trim(self.wake_word.as_str()).is_empty()
    }

    pub open spec fn waits(&self) -> bool {
        self.wake_enabled && trimmed(self.wake_word@).len() > 0
    }
}

/// What is said before the start where voice is switched off.
pub open spec fn voice_warnings(lang: Lang, enabled: bool, no_wake: bool) -> Seq<Seq<char>> {
    let off = pick(
        lang,
        "voice plugin is disabled; enable it in `laozhou config` or run `laozhou voice --help`"@,
        "语音插件未启用；可在 `laozhou config` 中启用，或运行 `laozhou voice --help`"@,
    );
    let hint = pick(
        lang,
        "hint: plugins.voice.enabled must be true to use voice mode"@,
        "提示：需将 plugins.voice.enabled 设为 true 才能使用语音模式"@,
    );
    if enabled {
        Seq::empty()
    } else if no_wake {
        seq![off]
    } else {
        seq![off, hint]
    }
}

pub fn voice_notes(lang: Lang, enabled: bool, no_wake: bool) -> (r: Vec<String>)
    ensures
        texts(r@) == voice_warnings(lang, enabled, no_wake),
{
    let mut out: Vec<String> = Vec::new();
    if !enabled {
        out.push(
            t(
                lang,
                "voice plugin is disabled; enable it in `laozhou config` or run `laozhou voice --help`",
                "语音插件未启用；可在 `laozhou config` 中启用，或运行 `laozhou voice --help`",
            ).to_owned(),
        );
        if !no_wake {
            out.push(
                t(
                    lang,
                    "hint: plugins.voice.enabled must be true to use voice mode",
                    "提示：需将 plugins.voice.enabled 设为 true 才能使用语音模式",
                ).to_owned(),
            );
        }
    }
    assert(texts(out@) =~= voice_warnings(lang, enabled, no_wake));
    out
}

/// Talking needs a terminal.
pub fn run_voice(lang: Lang, stdin_is_terminal: bool) -> (r: Result<(), String>)
    ensures
        match r {
            Ok(()) => stdin_is_terminal,
            Err(note) => !stdin_is_terminal && note@ == pick(
                lang,
                "voice mode requires an interactive terminal"@,
                "语音模式需要交互式终端"@,
            ),
        },
{
    if stdin_is_terminal {
        Ok(())
    } else {
        Err(
            t(lang, "voice mode requires an interactive terminal", "语音模式需要交互式终端").to_owned(),
        )
    }
}

/// The words that end a conversation.
pub open spec fn exit_words() -> Seq<Seq<char>> {
    seq!["exit"@, "quit"@, "再见"@, "退出"@, "拜拜"@, "不聊了"@]
}

/// One of those words, alone or with more behind a space.
pub open spec fn is_exit(input: Seq<char>) -> bool {
    let clean = lower(trimmed(input));
    exists|i: int|
        0 <= i < exit_words().len() && (clean == #[trigger] exit_words()[i] || begins_with(
            clean,
            exit_words()[i] + " "@,
        ))
}

fn ends_by(clean: &str, word: &str) -> (r: bool)
    ensures
        r == (clean@ == word@ || begins_with(clean@, word@ + " "@)),
{
    if same(clean, word) {
        return true;
    }
    let mut more = word.to_owned();
    more.append(" ");
    starts_with(clean, more.as_str())
}

pub fn is_exit_command(input: &str) -> (r: bool)
    ensures
        r == is_exit(input@),
{
    let lowered = lowercase(trim(input));
    let clean = lowered.as_str();
    let ghost w = exit_words();
    assert(w[0] == "exit"@ && w[1] == "quit"@ && w[2] == "再见"@ && w[3] == "退出"@ && w[4] == "拜拜"@
        && w[5] == "不聊了"@);
    ends_by(clean, "exit") || ends_by(clean, "quit") || ends_by(clean, "再见") || ends_by(
        clean,
        "退出",
    ) || ends_by(clean, "拜拜") || ends_by(clean, "不聊了")
}

/// The wake word of the other persona stands in this one.
pub open spec fn is_miyu(wake_word: Seq<char>) -> bool {
    exists|at: int| #[trigger] occurs_at(lower(wake_word), at, "miyu"@)
}

/// What is spoken on waking up.
pub fn wake_reply(lang: Lang, wake_word: &str) -> (r: &'static str)
    ensures
        r@ == if is_miyu(wake_word@) {
            pick(lang, "Here"@, "在呢"@)
        } else {
            pick(lang, "I'm here"@, "我在"@)
        },
{
    let lowered = lowercase(wake_word);
    let v = to_chars(lowered.as_str());
    match find_text(&v, 0, "miyu") {
        Some(at) => {
            assert(occurs_at(lower(wake_word@), at as int, "miyu"@));
            t(lang, "Here", "在呢")
        },
        None => t(lang, "I'm here", "我在"),
    }
}

/// Where a conversation stands.
#[derive(Clone, Copy, Debug, PartialEq, Eq, Structural)]
pub enum VoicePhase {
    Waking,
    Recording,
    Recognizing,
    Thinking,
    Over,
}

/// What happened.
#[derive(Debug)]
pub enum VoiceEvent {
    /// The wake word was heard.
    Heard,
    Space,
    Quit,
    /// What was said was recorded.
    Recorded,
    /// Recording or recognising it failed.
    Failed(String),
    Recognized(String),
    Replied(String),
    /// The turn was called off by a question.
    CalledOff,
    TurnFailed(String),
}

/// What to do about it.
#[derive(Debug)]
pub enum VoiceAction {
    Nothing,
    /// Answer the wake-up, after a note that the key was pressed where it was.
    WakeUp { pressed: bool, speak: bool },
    Show(String),
    /// Send what was said.
    Ask(String),
    /// Speak the reply, where that is wanted, and tidy up behind the turn.
    Finish { speak: bool },
    Complain(String),
}

/// The phase that a round begins with.
pub open spec fn first_phase(waits: bool) -> VoicePhase {
    if waits {
        VoicePhase::Waking
    } else {
        VoicePhase::Recording
    }
}

/// The phase behind an event.
pub open spec fn phase_after(phase: VoicePhase, event: VoiceEvent, waits: bool, once: bool) -> VoicePhase {
    match (phase, event) {
        (VoicePhase::Waking, VoiceEvent::Heard) => VoicePhase::Recording,
        (VoicePhase::Waking, VoiceEvent::Space) => VoicePhase::Recording,
        (VoicePhase::Waking, VoiceEvent::Quit) => VoicePhase::Over,
        (VoicePhase::Recording, VoiceEvent::Recorded) => VoicePhase::Recognizing,
        (VoicePhase::Recording, VoiceEvent::Failed(_)) => first_phase(waits),
        (VoicePhase::Recognizing, VoiceEvent::Failed(_)) => first_phase(waits),
        (VoicePhase::Recognizing, VoiceEvent::Recognized(text)) => if text@.len() == 0 {
            first_phase(waits)
        } else if is_exit(text@) {
            VoicePhase::Over
        } else {
            VoicePhase::Thinking
        },
        (VoicePhase::Thinking, VoiceEvent::Replied(_)) => if once {
            VoicePhase::Over
        } else {
            first_phase(waits)
        },
        (VoicePhase::Thinking, VoiceEvent::CalledOff) => first_phase(waits),
        (VoicePhase::Thinking, VoiceEvent::TurnFailed(_)) => first_phase(waits),
        _ => phase,
    }
}

/// What is done about an event.
pub open spec fn is_voice_action(
    lang: Lang,
    phase: VoicePhase,
    event: VoiceEvent,
    settings: VoiceSettings,
    action: VoiceAction,
) -> bool {
    match (phase, event) {
        (VoicePhase::Waking, VoiceEvent::Heard) => action == (VoiceAction::WakeUp {
            pressed: false,
            speak: settings.speaks(),
        }),
        (VoicePhase::Waking, VoiceEvent::Space) => action == (VoiceAction::WakeUp {
            pressed: true,
            speak: settings.speaks(),
        }),
        (VoicePhase::Recording, VoiceEvent::Failed(note)) => action matches VoiceAction::Show(text)
            && text@ == note@,
        (VoicePhase::Recognizing, VoiceEvent::Failed(note)) => action matches VoiceAction::Show(
            text,
        ) && text@ == note@,
        (VoicePhase::Recognizing, VoiceEvent::Recognized(said)) => if said@.len() == 0 {
            action matches VoiceAction::Show(text) && text@ == pick(
                lang,
                "(no speech recognized)"@,
                "（未识别到语音）"@,
            )
        } else if is_exit(said@) {
            action is Nothing
        } else {
            action matches VoiceAction::Ask(text) && text@ == said@
        },
        (VoicePhase::Thinking, VoiceEvent::Replied(reply)) => action == (VoiceAction::Finish {
            speak: settings.speak_replies && trimmed(reply@).len() > 0,
        }),
        (VoicePhase::Thinking, VoiceEvent::TurnFailed(note)) => action matches VoiceAction::Complain(
            text,
        ) && text@ == error_of(lang, note@),
        _ => action is Nothing,
    }
}

/// One step of a conversation by voice.
pub fn run_voice_ui(
    lang: Lang,
    phase: VoicePhase,
    event: VoiceEvent,
    settings: &VoiceSettings,
    once: bool,
) -> (r: (VoicePhase, VoiceAction))
    ensures
        r.0 == phase_after(phase, event, settings.waits(), once),
        is_voice_action(lang, phase, event, *settings, r.1),
{
    let first = if settings.waits_for_wake() {
        VoicePhase::Waking
    } else {
        VoicePhase::Recording
    };
    match (phase, event) {
        (VoicePhase::Waking, VoiceEvent::Heard) => (
            VoicePhase::Recording,
            VoiceAction::WakeUp { pressed: false, speak: settings.has_speech() },
        ),
        (VoicePhase::Waking, VoiceEvent::Space) => (
            VoicePhase::Recording,
            VoiceAction::WakeUp { pressed: true, speak: settings.has_speech() },
        ),
        (VoicePhase::Waking, VoiceEvent::Quit) => (VoicePhase::Over, VoiceAction::Nothing),
        (VoicePhase::Recording, VoiceEvent::Recorded) => (
            VoicePhase::Recognizing,
            VoiceAction::Nothing,
        ),
        (VoicePhase::Recording, VoiceEvent::Failed(note)) => (first, VoiceAction::Show(note)),
        (VoicePhase::Recognizing, VoiceEvent::Failed(note)) => (first, VoiceAction::Show(note)),
        (VoicePhase::Recognizing, VoiceEvent::Recognized(said)) => {
            if said.as_str().is_empty() {
                (
                    first,
                    VoiceAction::Show(
                        t(lang, "(no speech recognized)", "（未识别到语音）").to_owned(),
                    ),
                )
            } else if is_exit_command(said.as_str()) {
                (VoicePhase::Over, VoiceAction::Nothing)
            } else {
                (VoicePhase::Thinking, VoiceAction::Ask(said))
            }
        },
        (VoicePhase::Thinking, VoiceEvent::Replied(reply)) => {
            let speak = settings.speak_replies && !trim(reply.as_str()).is_empty();
            let next = if once {
                VoicePhase::Over
            } else {
                first
            };
            (next, VoiceAction::Finish { speak })
        },
        (VoicePhase::Thinking, VoiceEvent::CalledOff) => (first, VoiceAction::Nothing),
        (VoicePhase::Thinking, VoiceEvent::TurnFailed(note)) => {
            let text = error_text(lang, note.as_str());
            (first, VoiceAction::Complain(text))
        },
        _ => (phase, VoiceAction::Nothing),
    }
}

/// What is shown while a phase lasts.
pub fn phase_caption(lang: Lang, phase: VoicePhase) -> (r: &'static str)
    ensures
        r@ == match phase {
            VoicePhase::Waking => pick(lang, "say wake word or press space"@, "说出唤醒词或按空格"@),
            VoicePhase::Recording => pick(lang, "recording..."@, "正在录音..."@),
            VoicePhase::Recognizing => pick(lang, "recognizing..."@, "正在识别..."@),
            VoicePhase::Thinking => pick(lang, "thinking..."@, "思考中..."@),
            VoicePhase::Over => ""@,
        },
{
    match phase {
        VoicePhase::Waking => t(lang, "say wake word or press space", "说出唤醒词或按空格"),
        VoicePhase::Recording => t(lang, "recording...", "正在录音..."),
        VoicePhase::Recognizing => t(lang, "recognizing...", "正在识别..."),
        VoicePhase::Thinking => t(lang, "thinking...", "思考中..."),
        VoicePhase::Over => "",
    }
}

/// A conversation that is over stays over.
pub proof fn law_over_is_over(event: VoiceEvent, waits: bool, once: bool)
    ensures
        phase_after(VoicePhase::Over, event, waits, once) == VoicePhase::Over,
{
}

/// With a wake word, nothing is recorded before somebody woke the assistant up.
pub proof fn law_nothing_is_recorded_unasked(event: VoiceEvent, waits: bool, once: bool)
    requires
        waits,
        phase_after(VoicePhase::Waking, event, waits, once) == VoicePhase::Recording,
    ensures
        event is Heard || event is Space,
{
}

/// What was given on the command line only ever switches off, and a wake word
/// that is not blank takes the place of the one that is set.
pub proof fn law_command_line_goes_before_settings(settings: VoiceSettings, args: &VoiceArgs, r: VoiceSettings)
    requires
        call_ensures(VoiceSettings::with_args, (settings, args), r),
    ensures
        args.no_wake ==> !r.wake_enabled,
        !args.no_wake ==> r.wake_enabled == settings.wake_enabled,
        args.no_tts ==> !r.speak_replies,
        !args.no_tts ==> r.speak_replies == settings.speak_replies,
        args.wake_word is Some && trimmed(args.wake_word->0@).len() > 0 ==> r.wake_word@ == trimmed(
            args.wake_word->0@,
        ),
        args.wake_word is None || trimmed(args.wake_word->0@).len() == 0 ==> r.wake_word@
            == settings.wake_word@,
        r.enabled == settings.enabled,
        r.tts_backend == settings.tts_backend,
{
}

/// The persona brings the wake word, and the voice where the backend has one to
/// choose.
pub proof fn law_persona_brings_its_voice(
    settings: VoiceSettings,
    wake_word: String,
    voice: String,
    r: VoiceSettings,
)
    requires
        call_ensures(VoiceSettings::with_persona, (settings, wake_word, voice), r),
    ensures
        r.wake_word == wake_word,
        settings.tts_backend@ == "xiaomi"@ ==> r.xiaomi_tts_voice == voice,
        settings.tts_backend@ != "xiaomi"@ ==> r.xiaomi_tts_voice == settings.xiaomi_tts_voice,
        r.wake_enabled == settings.wake_enabled && r.speak_replies == settings.speak_replies
            && r.enabled == settings.enabled && r.tts_backend == settings.tts_backend,
{
}

/// Something speaks unless it is switched off, and a wake word is waited for
/// where it is switched on and not blank.
pub proof fn law_speech_and_waking_are_settings(settings: &VoiceSettings, speaks: bool, waits: bool)
    requires
        call_ensures(VoiceSettings::has_speech, (settings,), speaks),
        call_ensures(VoiceSettings::waits_for_wake, (settings,), waits),
    ensures
        speaks <==> settings.tts_backend@ != "none"@,
        waits <==> settings.wake_enabled && trimmed(settings.wake_word@).len() > 0,
{
}

/// What is said before the start: nothing where voice is on, one line where it is
/// off, and a hint beside it unless waking is switched off.
pub proof fn law_switched_off_voice_is_said(lang: Lang, enabled: bool, no_wake: bool, r: Vec<String>)
    requires
        call_ensures(voice_notes, (lang, enabled, no_wake), r),
    ensures
        enabled ==> r@.len() == 0,
        !enabled && no_wake ==> r@.len() == 1,
        !enabled && !no_wake ==> r@.len() == 2,
        !enabled ==> r@[0]@ == pick(
            lang,
            "voice plugin is disabled; enable it in `laozhou config` or run `laozhou voice --help`"@,
            "语音插件未启用；可在 `laozhou config` 中启用，或运行 `laozhou voice --help`"@,
        ),
{
    assert(texts(r@).len() == r@.len());
    if !enabled {
        assert(texts(r@)[0] == r@[0]@);
    }
}

/// Each of six words ends a conversation, in whatever case, alone or with more
/// behind it; nothing else does.
pub proof fn law_six_words_end_a_conversation(input: &str, r: bool)
    requires
        call_ensures(is_exit_command, (input,), r),
    ensures
        ({
            let said = lower(trimmed(input@));
            &&& said == "exit"@ || said == "quit"@ || said == "再见"@ || said == "退出"@ || said
                == "拜拜"@ || said == "不聊了"@ ==> r
            &&& begins_with(said, "exit"@ + " "@) || begins_with(said, "quit"@ + " "@)
                || begins_with(said, "再见"@ + " "@) || begins_with(said, "退出"@ + " "@)
                || begins_with(said, "拜拜"@ + " "@) || begins_with(said, "不聊了"@ + " "@) ==> r
            &&& r ==> said == "exit"@ || said == "quit"@ || said == "再见"@ || said == "退出"@
                || said == "拜拜"@ || said == "不聊了"@ || begins_with(said, "exit"@ + " "@)
                || begins_with(said, "quit"@ + " "@) || begins_with(said, "再见"@ + " "@)
                || begins_with(said, "退出"@ + " "@) || begins_with(said, "拜拜"@ + " "@)
                || begins_with(said, "不聊了"@ + " "@)
        }),
{
    let words = exit_words();
    assert(words.len() == 6);
    assert(words[0] == "exit"@ && words[1] == "quit"@ && words[2] == "再见"@ && words[3] == "退出"@
        && words[4] == "拜拜"@ && words[5] == "不聊了"@);
}

/// A conversation goes from waking to recording, recognizing and thinking, and
/// back to its start; it is over at the word for it, behind a single turn, or
/// where the user quits.
pub proof fn law_conversation_goes_round(
    lang: Lang,
    phase: VoicePhase,
    event: VoiceEvent,
    settings: &VoiceSettings,
    once: bool,
    r: (VoicePhase, VoiceAction),
)
    requires
        call_ensures(run_voice_ui, (lang, phase, event, settings, once), r),
    ensures
        ({
            let waits = settings.wake_enabled && trimmed(settings.wake_word@).len() > 0;
            let start = if waits {
                VoicePhase::Waking
            } else {
                VoicePhase::Recording
            };
            &&& phase is Waking && (event is Heard || event is Space) ==> r.0 is Recording
            &&& phase is Waking && event is Heard ==> r.1 == (VoiceAction::WakeUp {
                pressed: false,
                speak: settings.tts_backend@ != "none"@,
            })
            &&& phase is Waking && event is Space ==> r.1 == (VoiceAction::WakeUp {
                pressed: true,
                speak: settings.tts_backend@ != "none"@,
            })
            &&& phase is Waking && event is Quit ==> r.0 is Over
            &&& phase is Recording && event is Recorded ==> r.0 is Recognizing && r.1 is Nothing
            &&& (phase is Recording || phase is Recognizing) && event is Failed ==> r.0 == start
                && r.1 is Show && r.1->Show_0@ == event->Failed_0@
            &&& phase is Recognizing && event is Recognized && event->Recognized_0@.len() == 0
                ==> r.0 == start && r.1 is Show
            &&& phase is Recognizing && event is Recognized && event->Recognized_0@.len() > 0
                && is_exit(event->Recognized_0@) ==> r.0 is Over && r.1 is Nothing
            &&& phase is Recognizing && event is Recognized && event->Recognized_0@.len() > 0
                && !is_exit(event->Recognized_0@) ==> r.0 is Thinking && r.1 is Ask
                && r.1->Ask_0@ == event->Recognized_0@
            &&& phase is Thinking && event is Replied && once ==> r.0 is Over
            &&& phase is Thinking && event is Replied && !once ==> r.0 == start
            &&& phase is Thinking && event is Replied ==> r.1 == (VoiceAction::Finish {
                speak: settings.speak_replies && trimmed(event->Replied_0@).len() > 0,
            })
            &&& phase is Thinking && (event is CalledOff || event is TurnFailed) ==> r.0 == start
            &&& phase is Thinking && event is TurnFailed ==> r.1 is Complain
                && r.1->Complain_0@ == error_of(lang, event->TurnFailed_0@)
            &&& phase is Over ==> r.0 is Over && r.1 is Nothing
        }),
{
}

/// Talking takes a terminal, and waking is answered in the words of the persona.
pub proof fn law_talking_takes_a_terminal(
    lang: Lang,
    terminal: bool,
    r: Result<(), String>,
    wake_word: &str,
    reply: &'static str,
)
    requires
        call_ensures(run_voice, (lang, terminal), r),
        call_ensures(wake_reply, (lang, wake_word), reply),
    ensures
        r is Ok <==> terminal,
        (exists|at: int| #[trigger] occurs_at(lower(wake_word@), at, "miyu"@)) ==> reply@ == pick(
            lang,
            "Here"@,
            "在呢"@,
        ),
        !(exists|at: int| #[trigger] occurs_at(lower(wake_word@), at, "miyu"@)) ==> reply@ == pick(
            lang,
            "I'm here"@,
            "我在"@,
        ),
{
}

/// Each phase is shown by its own words.
pub proof fn law_phases_have_their_captions(lang: Lang, phase: VoicePhase, r: &'static str)
    requires
        call_ensures(phase_caption, (lang, phase), r),
    ensures
        phase is Waking ==> r@ == pick(
            lang,
            "say wake word or press space"@,
            "说出唤醒词或按空格"@,
        ),
        phase is Recording ==> r@ == pick(lang, "recording..."@, "正在录音..."@),
        phase is Recognizing ==> r@ == pick(lang, "recognizing..."@, "正在识别..."@),
        phase is Thinking ==> r@ == pick(lang, "thinking..."@, "思考中..."@),
        phase is Over ==> r@ == ""@,
{
}

} // verus!
