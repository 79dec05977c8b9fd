//! The modes in which the assistant answers.
use crate::lang::{pick, t, Lang};
use crate::text::same;
use vstd::prelude::*;

verus! {

#[derive(Clone, Copy, Debug, PartialEq, Eq, Structural)]
pub enum AgentMode {
    Normal,
    Plan,
    Chat,
}

/// The label of a mode in the footer.
pub open spec fn mode_label(lang: Lang, mode: AgentMode) -> Seq<char> {
    match mode {
        AgentMode::Normal => pick(lang, "NORMAL"@, "普通"@),
        AgentMode::Plan => pick(lang, "PLAN"@, "计划"@),
        AgentMode::Chat => pick(lang, "CHAT"@, "闲聊"@),
    }
}

/// The mode behind `mode` in the cycle that Tab runs through.
pub open spec fn mode_after(mode: AgentMode) -> AgentMode {
    match mode {
        AgentMode::Normal => AgentMode::Plan,
        AgentMode::Plan => AgentMode::Chat,
        AgentMode::Chat => AgentMode::Normal,
    }
}

/// The name of a mode in the daemon's protocol.
pub open spec fn mode_name(mode: AgentMode) -> Seq<char> {
    match mode {
        AgentMode::Normal => "normal"@,
        AgentMode::Plan => "plan"@,
        AgentMode::Chat => "chat"@,
    }
}

/// The mode that a name of the daemon's protocol stands for: normal mode for
/// every name that is not one of the other two.
pub open spec fn mode_named(name: Seq<char>) -> AgentMode {
    if name == "plan"@ {
        AgentMode::Plan
    } else if name == "chat"@ {
        AgentMode::Chat
    } else {
        AgentMode::Normal
    }
}

impl AgentMode {
    pub fn label(self, lang: Lang) -> (r: &'static str)
        ensures
            r@ == mode_label(lang, self),
    {
        match self {
            AgentMode::Normal => t(lang, "NORMAL", "普通"),
            AgentMode::Plan => t(lang, "PLAN", "计划"),
            AgentMode::Chat => t(lang, "CHAT", "闲聊"),
        }
    }

    pub fn next(self) -> (r: AgentMode)
        ensures
            r == mode_after(self),
    {
        match self {
            AgentMode::Normal => AgentMode::Plan,
            AgentMode::Plan => AgentMode::Chat,
            AgentMode::Chat => AgentMode::Normal,
        }
    }
}

pub fn ipc_mode_name(mode: AgentMode) -> (r: &'static str)
    ensures
        r@ == mode_name(mode),
{
    match mode {
        AgentMode::Normal => "normal",
        AgentMode::Plan => "plan",
        AgentMode::Chat => "chat",
    }
}

pub fn ipc_mode_from_name(name: &str) -> (r: AgentMode)
    ensures
        r == mode_named(name@),
{
    if same(name, "plan") {
        AgentMode::Plan
    } else if same(name, "chat") {
        AgentMode::Chat
    } else {
        AgentMode::Normal
    }
}

/// The daemon reads back the mode whose name it was sent.
pub proof fn law_mode_names_read_back(mode: AgentMode)
    ensures
        mode_named(mode_name(mode)) == mode,
{
    reveal_strlit("normal");
    reveal_strlit("plan");
    reveal_strlit("chat");
    assert("normal"@.len() == 6);
    assert("plan"@.len() == 4);
    assert("plan"@[0] == 'p');
    assert("chat"@[0] == 'c');
}

/// Three presses of Tab lead back to the mode one started from, through the
/// other two.
pub proof fn law_modes_cycle(mode: AgentMode)
    ensures
        mode_after(mode_after(mode_after(mode))) == mode,
        mode_after(mode) != mode,
        mode_after(mode_after(mode)) != mode,
{
}

/// Tab goes from the normal mode to planning, to chatting and back.
pub proof fn law_tab_goes_to_the_next_mode(mode: AgentMode, r: AgentMode)
    requires
        call_ensures(AgentMode::next, (mode,), r),
    ensures
        mode is Normal ==> r is Plan,
        mode is Plan ==> r is Chat,
        mode is Chat ==> r is Normal,
{
}

/// Each mode has its own label, and its own name in the daemon's protocol, by
/// which it is found again; any other name is the normal mode.
pub proof fn law_modes_have_names(
    lang: Lang,
    mode: AgentMode,
    label: &'static str,
    name: &'static str,
    read: &str,
    r: AgentMode,
)
    requires
        call_ensures(AgentMode::label, (mode, lang), label),
        call_ensures(ipc_mode_name, (mode,), name),
        call_ensures(ipc_mode_from_name, (read,), r),
    ensures
        mode is Normal ==> label@ == pick(lang, "NORMAL"@, "普通"@) && name@ == "normal"@,
        mode is Plan ==> label@ == pick(lang, "PLAN"@, "计划"@) && name@ == "plan"@,
        mode is Chat ==> label@ == pick(lang, "CHAT"@, "闲聊"@) && name@ == "chat"@,
        read@ == name@ ==> r == mode,
        r is Plan <==> read@ == "plan"@,
        r is Chat <==> read@ == "chat"@,
{
    law_mode_names_read_back(mode);
    reveal_strlit("plan");
    reveal_strlit("chat");
    assert("plan"@[0] != "chat"@[0]);
}

} // verus!
