//! The keyboard protocol and the raw mode of the terminal while input is read.
use vstd::prelude::*;

verus! {

/// What to do about the extended keyboard protocol on a platform.
#[derive(Clone, Copy, Debug, PartialEq, Eq, Structural)]
pub enum KeyboardEnhancementStrategy {
    BestEffort,
    Skip,
}

/// The consoles of Windows do not know the protocol.
pub fn strategy_for_platform(is_windows: bool) -> (r: KeyboardEnhancementStrategy)
    ensures
        r == if is_windows {
            KeyboardEnhancementStrategy::Skip
        } else {
            KeyboardEnhancementStrategy::BestEffort
        },
{
    if is_windows {
        KeyboardEnhancementStrategy::Skip
    } else {
        KeyboardEnhancementStrategy::BestEffort
    }
}

/// Whether the protocol was switched on and has to be switched off again.
#[derive(Clone, Copy, Debug, PartialEq, Eq, Structural)]
pub struct KeyboardEnhancementState {
    pub active: bool,
}

impl KeyboardEnhancementState {
    pub fn inactive() -> (r: Self)
        ensures
            !r.active,
    {
        KeyboardEnhancementState { active: false }
    }

    /// Whether to ask the terminal for the protocol at all.
    pub fn wanted(is_windows: bool) -> (r: bool)
        ensures
            r == !is_windows,
    {
        strategy_for_platform(is_windows) == KeyboardEnhancementStrategy::BestEffort
    }

    /// The state behind the request: `pushed` says whether it was written.
    pub fn enable(is_windows: bool, pushed: bool) -> (r: Self)
        ensures
            r.active == (!is_windows && pushed),
    {
        if strategy_for_platform(is_windows) == KeyboardEnhancementStrategy::Skip {
            return KeyboardEnhancementState::inactive();
        }
        KeyboardEnhancementState { active: pushed }
    }

    /// Takes over a protocol that is on already.
    pub fn assume_active(is_windows: bool) -> (r: Self)
        ensures
            r.active == !is_windows,
    {
        if strategy_for_platform(is_windows) == KeyboardEnhancementStrategy::Skip {
            return KeyboardEnhancementState::inactive();
        }
        KeyboardEnhancementState { active: true }
    }

    /// Switches the protocol off; says whether the terminal has to be told.
    pub fn disable(&mut self) -> (pop: bool)
        ensures
            pop == old(self).active,
            !final(self).active,
    {
        let pop = self.active;
        self.active = false;
        pop
    }
}

/// What has to be undone when raw input ends.
#[derive(Clone, Copy, Debug, PartialEq, Eq, Structural)]
pub struct LiveRawMode {
    pub show_cursor_on_drop: bool,
    pub restore_terminal_on_drop: bool,
    pub keyboard_enhancement: KeyboardEnhancementState,
}

/// The steps that undo raw input.
#[derive(Clone, Copy, Debug, PartialEq, Eq, Structural)]
pub struct RawModeEnd {
    /// Leave bracketed paste, focus reports and raw mode.
    pub restore: bool,
    pub show_cursor: bool,
    pub pop_keyboard: bool,
}

impl LiveRawMode {
    pub fn start(keyboard_enhancement: KeyboardEnhancementState) -> (r: Self)
        ensures
            r == (LiveRawMode {
                show_cursor_on_drop: true,
                restore_terminal_on_drop: true,
                keyboard_enhancement,
            }),
    {
        LiveRawMode {
            show_cursor_on_drop: true,
            restore_terminal_on_drop: true,
            keyboard_enhancement,
        }
    }

    /// Takes over the modes that an earlier reader left on.
    pub fn adopt(is_windows: bool) -> (r: Self)
        ensures
            r == (LiveRawMode {
                show_cursor_on_drop: true,
                restore_terminal_on_drop: true,
                keyboard_enhancement: KeyboardEnhancementState { active: !is_windows },
            }),
    {
        LiveRawMode {
            show_cursor_on_drop: true,
            restore_terminal_on_drop: true,
            keyboard_enhancement: KeyboardEnhancementState::assume_active(is_windows),
        }
    }

    pub fn keep_cursor_hidden(&mut self)
        ensures
            *final(self) == (LiveRawMode { show_cursor_on_drop: false, ..*old(self) }),
    {
        self.show_cursor_on_drop = false;
    }

    /// Leaves the modes on for the reader that comes next.
    pub fn handoff(&mut self)
        ensures
            *final(self) == (LiveRawMode {
                restore_terminal_on_drop: false,
                keyboard_enhancement: KeyboardEnhancementState { active: false },
                ..*old(self)
            }),
    {
        self.restore_terminal_on_drop = false;
        self.keyboard_enhancement = KeyboardEnhancementState::inactive();
    }

    /// What is undone when the reader ends.
    pub fn end(&mut self) -> (r: RawModeEnd)
        ensures
            r.restore == old(self).restore_terminal_on_drop,
            r.show_cursor == (old(self).restore_terminal_on_drop && old(self).show_cursor_on_drop),
            r.pop_keyboard == (old(self).restore_terminal_on_drop && old(self).keyboard_enhancement.active),
    {
        if !self.restore_terminal_on_drop {
            return RawModeEnd { restore: false, show_cursor: false, pop_keyboard: false };
        }
        let pop_keyboard = self.keyboard_enhancement.disable();
        RawModeEnd { restore: true, show_cursor: self.show_cursor_on_drop, pop_keyboard }
    }
}

/// What is left to undo by a reader that handed over.
pub open spec fn owes_nothing(raw: LiveRawMode) -> bool {
    !raw.restore_terminal_on_drop && !raw.keyboard_enhancement.active
}

/// Over a handover the protocol is switched off exactly once: the reader that
/// hands over owes nothing, and the one that takes over owes what it owed.
pub proof fn law_handover_moves_the_debt(before: LiveRawMode, is_windows: bool)
    requires
        before.keyboard_enhancement.active == !is_windows,
        before.restore_terminal_on_drop,
    ensures
        ({
            let handed = LiveRawMode {
                restore_terminal_on_drop: false,
                keyboard_enhancement: KeyboardEnhancementState { active: false },
                ..before
            };
            let adopted = LiveRawMode {
                show_cursor_on_drop: true,
                restore_terminal_on_drop: true,
                keyboard_enhancement: KeyboardEnhancementState { active: !is_windows },
            };
            owes_nothing(handed) && adopted.keyboard_enhancement == before.keyboard_enhancement
                && adopted.restore_terminal_on_drop == before.restore_terminal_on_drop
        }),
{
}

/// The cursor, given what the terminal answered when asked for it: over a slow
/// link the answer may be missing, and then the fallback has to do.
pub fn cursor_position_or(answer: Option<(u16, u16)>, fallback: (u16, u16)) -> (r: (u16, u16))
    ensures
        r == match answer {
            Some(at) => at,
            None => fallback,
        },
{
    match answer {
        Some(at) => at,
        None => fallback,
    }
}

pub fn cursor_row_or(answer: Option<(u16, u16)>, fallback: u16) -> (r: u16)
    ensures
        r == match answer {
            Some(at) => at.1,
            None => fallback,
        },
{
    cursor_position_or(answer, (0, fallback)).1
}

pub fn cursor_col_or(answer: Option<(u16, u16)>, fallback: u16) -> (r: u16)
    ensures
        r == match answer {
            Some(at) => at.0,
            None => fallback,
        },
{
    cursor_position_or(answer, (fallback, 0)).0
}

/// The protocol is asked for everywhere but on Windows, and is on where the
/// request was written; switching it off tells the terminal once.
pub proof fn law_protocol_is_switched_on_and_off(
    windows: bool,
    pushed: bool,
    strategy: KeyboardEnhancementStrategy,
    wanted: bool,
    on: KeyboardEnhancementState,
    taken: KeyboardEnhancementState,
    off: KeyboardEnhancementState,
    state: &mut KeyboardEnhancementState,
    pop: bool,
)
    requires
        call_ensures(strategy_for_platform, (windows,), strategy),
        call_ensures(KeyboardEnhancementState::wanted, (windows,), wanted),
        call_ensures(KeyboardEnhancementState::enable, (windows, pushed), on),
        call_ensures(KeyboardEnhancementState::assume_active, (windows,), taken),
        call_ensures(KeyboardEnhancementState::inactive, (), off),
        call_ensures(KeyboardEnhancementState::disable, (state,), pop),
    ensures
        windows <==> strategy is Skip,
        wanted <==> !windows,
        on.active <==> !windows && pushed,
        taken.active <==> !windows,
        !off.active,
        pop <==> old(state).active,
        !final(state).active,
{
}

/// A reader undoes at its end what it switched on; one that handed over undoes
/// nothing, and one that keeps the cursor hidden does not show it.
pub proof fn law_readers_undo_what_they_did(
    keyboard: KeyboardEnhancementState,
    started: LiveRawMode,
    windows: bool,
    adopted: LiveRawMode,
    raw: &mut LiveRawMode,
    end: RawModeEnd,
    handing: &mut LiveRawMode,
    hiding: &mut LiveRawMode,
)
    requires
        call_ensures(LiveRawMode::start, (keyboard,), started),
        call_ensures(LiveRawMode::adopt, (windows,), adopted),
        call_ensures(LiveRawMode::end, (raw,), end),
        call_ensures(LiveRawMode::handoff, (handing,), ()),
        call_ensures(LiveRawMode::keep_cursor_hidden, (hiding,), ()),
    ensures
        *old(raw) == started ==> end.restore && end.show_cursor && (end.pop_keyboard
            <==> keyboard.active),
        *old(raw) == adopted ==> end.restore && end.show_cursor && (end.pop_keyboard <==> !windows),
        *old(raw) == *final(handing) ==> !end.restore && !end.show_cursor && !end.pop_keyboard,
        *old(raw) == *final(hiding) ==> !end.show_cursor && end.restore == old(hiding).restore_terminal_on_drop,
{
}

/// The terminal's answer is taken, column and row each in its place; without one
/// the fallback is.
pub proof fn law_answers_go_before_fallbacks(
    answer: Option<(u16, u16)>,
    fallback: (u16, u16),
    at: (u16, u16),
    row: u16,
    col: u16,
)
    requires
        call_ensures(cursor_position_or, (answer, fallback), at),
        call_ensures(cursor_row_or, (answer, fallback.1), row),
        call_ensures(cursor_col_or, (answer, fallback.0), col),
    ensures
        answer matches Some((x, y)) ==> at == (x, y) && col == x && row == y,
        answer is None ==> at == fallback && col == fallback.0 && row == fallback.1,
{
}

} // verus!
