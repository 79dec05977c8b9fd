//! The line editor of the prompt: key presses and pastes in, text and decisions
//! out.
use crate::commands::{command_name, complete_repl_command, completion};
use crate::edit::{
    clamped, insert_char_at_cursor, insert_newline_at_cursor, insert_pasted_text_at_cursor,
    insert_str_at_cursor, inserted, paste_insertion, remove_char_at_cursor,
    remove_char_before_cursor, remove_range_chars, remove_word_before_cursor, without_range,
    without_last_run, word_start,
};
use crate::lang::Lang;
use crate::layout::{
    at_least_one, content_width, moved_to, repl_move_cursor_vertical,
};
use crate::mode::{mode_after, AgentMode};
use crate::paste::is_long_paste;
use crate::placeholder::{
    clear_placeholder_payload, expand_pasted_text_placeholders, expanded, image_index, near_cursor,
    pasted_index, pasted_views, placeholder_after_or_at_cursor, placeholder_at_cursor,
    placeholder_before_or_at_cursor, placeholder_text_near_cursor, slot_of, spans, touches_left,
    touches_right, with_slot_emptied, PastedImage, PastedText,
};
use crate::sanitize::{
    disallowed, is_disallowed_control_char, strip_terminal_control_sequences, stripped,
};
use crate::text::{
    begins_with, decimal, decimal_text, is_white_space, same, starts_with, texts, trim, trim_right,
    trimmed,
};
use vstd::prelude::*;
use vstd::string::*;

verus! {

#[derive(Clone, Copy, Debug, PartialEq, Eq, Structural)]
pub enum KeyCode {
    Tab,
    Esc,
    Left,
    Right,
    Up,
    Down,
    Home,
    End,
    Enter,
    Backspace,
    Delete,
    Char(char),
    Other,
}

#[derive(Clone, Copy, Debug, PartialEq, Eq, Structural)]
pub struct KeyModifiers {
    pub control: bool,
    pub shift: bool,
}

/// What the terminal reports.
#[derive(Debug)]
pub enum Event {
    Key { code: KeyCode, modifiers: KeyModifiers, release: bool },
    Paste(String),
    Resize,
    FocusGained,
    FocusLost,
    Other,
}

/// How long after one Esc a second one interrupts.
pub const ESCAPE_WINDOW_MS: u64 = 2000;

/// The prompt takes two columns on every row of the input box.
pub open spec fn box_width(size: Option<(u16, u16)>) -> int {
    content_width(
        "  "@,
        match size {
            Some((cols, _)) => at_least_one(cols as int),
            None => 80,
        },
    )
}

#[derive(Debug)]
pub struct LiveReplEditor {
    pub mode: AgentMode,
    pub input: String,
    pub cursor: usize,
    pub history: Vec<String>,
    pub history_index: usize,
    pub history_clean_index: Option<usize>,
    pub is_pasted: bool,
    pub pasted_images: Vec<Option<PastedImage>>,
    pub pasted_texts: Vec<Option<PastedText>>,
    /// The time, in milliseconds, up to which a second Esc interrupts.
    pub escape_armed_until: Option<u64>,
    /// Whether the terminal window has the focus, as far as it reports it.
    pub focused: bool,
}

/// The state of the editor.
pub struct EditorState {
    pub mode: AgentMode,
    pub input: Seq<char>,
    pub cursor: int,
    pub history: Seq<Seq<char>>,
    pub history_index: int,
    pub clean: Option<int>,
    pub is_pasted: bool,
    pub images: Seq<Option<PastedImage>>,
    pub pasted: Seq<Option<Seq<char>>>,
    pub armed_until: Option<int>,
    pub focused: bool,
}

impl View for LiveReplEditor {
    type V = EditorState;

    open spec fn view(&self) -> EditorState {
        EditorState {
            mode: self.mode,
            input: self.input@,
            cursor: self.cursor as int,
            history: texts(self.history@),
            history_index: self.history_index as int,
            clean: match self.history_clean_index {
                Some(i) => Some(i as int),
                None => None,
            },
            is_pasted: self.is_pasted,
            images: self.pasted_images@,
            pasted: pasted_views(self.pasted_texts@),
            armed_until: match self.escape_armed_until {
                Some(t) => Some(t as int),
                None => None,
            },
            focused: self.focused,
        }
    }
}

impl EditorState {
    /// The history index stands in the history or right behind it.
    pub open spec fn wf(self) -> bool {
        &&& 0 <= self.cursor
        &&& 0 <= self.history_index <= self.history.len()
    }

    /// The cursor stands in the input or right behind it.
    pub open spec fn cursor_inside(self) -> bool {
        0 <= self.cursor <= self.input.len()
    }

    /// Nothing typed and nothing pasted.
    pub open spec fn cleared(self) -> EditorState {
        EditorState {
            input: Seq::empty(),
            cursor: 0,
            clean: None,
            is_pasted: false,
            images: Seq::empty(),
            pasted: Seq::empty(),
            armed_until: None,
            ..self
        }
    }

    pub open spec fn disarmed(self) -> EditorState {
        EditorState { armed_until: None, ..self }
    }
}

/// Whether the input is an entry of the history as it was fetched.
pub open spec fn history_is_clean(
    input: Seq<char>,
    history: Seq<Seq<char>>,
    clean: Option<int>,
) -> bool {
    match clean {
        Some(i) => 0 <= i < history.len() && history[i] == input,
        None => false,
    }
}

pub fn repl_history_is_clean(
    input: &str,
    history: &Vec<String>,
    history_clean_index: Option<usize>,
) -> (r: bool)
    ensures
        r == history_is_clean(
            input@,
            texts(history@),
            match history_clean_index {
                Some(i) => Some(i as int),
                None => None,
            },
        ),
{
    match history_clean_index {
        Some(i) => {
            if i < history.len() {
                assert(texts(history@)[i as int] == history@[i as int]@);
                same(history[i].as_str(), input)
            } else {
                false
            }
        },
        None => false,
    }
}

/// Whether Up fetches from the history: only where nothing was typed that it
/// would overwrite.
pub open spec fn should_browse(
    input: Seq<char>,
    history: Seq<Seq<char>>,
    clean: Option<int>,
) -> bool {
    input.len() == 0 || history_is_clean(input, history, clean)
}

pub fn repl_should_browse_history(
    input: &str,
    history: &Vec<String>,
    history_clean_index: Option<usize>,
) -> (r: bool)
    ensures
        r == should_browse(
            input@,
            texts(history@),
            match history_clean_index {
                Some(i) => Some(i as int),
                None => None,
            },
        ),
{
    input.is_empty() || repl_history_is_clean(input, history, history_clean_index)
}

/// The placeholder that the cursor is inside of.
pub open spec fn around(s: Seq<char>, cursor: int) -> Option<(int, int)> {
    if exists|p: (int, int)| spans(s).contains(p) && p.0 < cursor < p.1 {
        Some(choose|p: (int, int)| spans(s).contains(p) && p.0 < cursor < p.1)
    } else {
        None
    }
}

/// The placeholder that a deletion to the left of the cursor takes.
pub open spec fn left_of(s: Seq<char>, cursor: int) -> Option<(int, int)> {
    if exists|p: (int, int)| spans(s).contains(p) && touches_left(p, cursor) {
        Some(choose|p: (int, int)| spans(s).contains(p) && touches_left(p, cursor))
    } else {
        None
    }
}

/// The placeholder that a deletion to the right of the cursor takes.
pub open spec fn right_of(s: Seq<char>, cursor: int) -> Option<(int, int)> {
    if exists|p: (int, int)| spans(s).contains(p) && touches_right(p, cursor) {
        Some(choose|p: (int, int)| spans(s).contains(p) && touches_right(p, cursor))
    } else {
        None
    }
}

pub open spec fn wide(p: Option<(usize, usize)>) -> Option<(int, int)> {
    match p {
        Some((a, b)) => Some((a as int, b as int)),
        None => None,
    }
}

proof fn lemma_unique(s: Seq<char>, cursor: int, p: (int, int), q: (int, int))
    requires
        spans(s).contains(p),
        spans(s).contains(q),
        (touches_left(p, cursor) && touches_left(q, cursor)) || (touches_right(p, cursor)
            && touches_right(q, cursor)),
    ensures
        p == q,
{
    let i = choose|i: int| 0 <= i < spans(s).len() && spans(s)[i] == p;
    let j = choose|j: int| 0 <= j < spans(s).len() && spans(s)[j] == q;
    crate::placeholder::law_touched_placeholder_is_unique(s, cursor, i, j);
}

fn find_around(input: &str, cursor: usize) -> (r: Option<(usize, usize)>)
    ensures
        wide(r) == around(input@, cursor as int),
        r matches Some((a, b)) ==> a < b <= input@.len(),
{
    let r = placeholder_at_cursor(input, cursor);
    proof {
        crate::placeholder::law_placeholders_are_disjoint(input@);
        if r is Some {
            let p = wide(r)->0;
            assert(spans(input@).contains(p) && p.0 < cursor < p.1);
            let q = around(input@, cursor as int)->0;
            lemma_unique(input@, cursor as int, p, q);
            let i = choose|i: int| 0 <= i < spans(input@).len() && spans(input@)[i] == p;
            assert(spans(input@)[i].1 <= input@.len());
        }
    }
    r
}

fn find_left_of(input: &str, cursor: usize) -> (r: Option<(usize, usize)>)
    ensures
        wide(r) == left_of(input@, cursor as int),
        r matches Some((a, b)) ==> a < b <= input@.len(),
{
    let r = placeholder_before_or_at_cursor(input, cursor);
    proof {
        crate::placeholder::law_placeholders_are_disjoint(input@);
        if r is Some {
            let p = wide(r)->0;
            assert(spans(input@).contains(p) && touches_left(p, cursor as int));
            let q = left_of(input@, cursor as int)->0;
            lemma_unique(input@, cursor as int, p, q);
            let i = choose|i: int| 0 <= i < spans(input@).len() && spans(input@)[i] == p;
            assert(spans(input@)[i].1 <= input@.len());
        }
    }
    r
}

fn find_right_of(input: &str, cursor: usize) -> (r: Option<(usize, usize)>)
    ensures
        wide(r) == right_of(input@, cursor as int),
        r matches Some((a, b)) ==> a < b <= input@.len(),
{
    let r = placeholder_after_or_at_cursor(input, cursor);
    proof {
        crate::placeholder::law_placeholders_are_disjoint(input@);
        if r is Some {
            let p = wide(r)->0;
            assert(spans(input@).contains(p) && touches_right(p, cursor as int));
            let q = right_of(input@, cursor as int)->0;
            lemma_unique(input@, cursor as int, p, q);
            let i = choose|i: int| 0 <= i < spans(input@).len() && spans(input@)[i] == p;
            assert(spans(input@)[i].1 <= input@.len());
        }
    }
    r
}

/// The input without the placeholder `p`, its payload dropped with it.
pub open spec fn without_placeholder(v: EditorState, p: (int, int)) -> EditorState {
    let segment = v.input.subrange(p.0, p.1);
    EditorState {
        input: without_range(v.input, p.0, p.1),
        images: with_slot_emptied(v.images, image_index(segment)),
        pasted: with_slot_emptied(v.pasted, pasted_index(segment)),
        ..v
    }
}

/// The cursor one row up or down.
pub open spec fn vertical(v: EditorState, up: bool, width: int) -> int {
    if v.input.len() == 0 {
        clamped(v.input, v.cursor)
    } else {
        choose|r: int| moved_to(v.input, width, clamped(v.input, v.cursor), up, r)
    }
}

/// The history entry `i` in the input box, with the cursor behind it.
pub open spec fn with_entry(v: EditorState, i: int) -> EditorState {
    let input = if 0 <= i < v.history.len() {
        v.history[i]
    } else {
        Seq::empty()
    };
    EditorState {
        input,
        cursor: input.len() as int,
        history_index: i,
        clean: Some(i),
        is_pasted: false,
        images: Seq::empty(),
        pasted: Seq::empty(),
        ..v
    }
}

pub open spec fn after_up(v: EditorState, width: int) -> EditorState {
    if v.history.len() > 0 && should_browse(v.input, v.history, v.clean) {
        let from = if v.input.len() == 0 {
            v.history.len() as int
        } else {
            v.history_index
        };
        with_entry(
            v,
            if from > 0 {
                from - 1
            } else {
                0
            },
        )
    } else {
        EditorState { cursor: vertical(v, true, width), ..v }
    }
}

pub open spec fn after_down(v: EditorState, width: int) -> EditorState {
    if history_is_clean(v.input, v.history, v.clean) {
        if v.history_index + 1 < v.history.len() {
            with_entry(v, v.history_index + 1)
        } else {
            EditorState {
                input: Seq::empty(),
                cursor: 0,
                history_index: v.history.len() as int,
                clean: None,
                is_pasted: false,
                images: Seq::empty(),
                pasted: Seq::empty(),
                ..v
            }
        }
    } else {
        EditorState { cursor: vertical(v, false, width), ..v }
    }
}

pub open spec fn after_newline(v: EditorState) -> EditorState {
    EditorState {
        input: inserted(v.input, v.cursor, seq!['\n']),
        cursor: v.cursor + 1,
        clean: None,
        is_pasted: false,
        ..v
    }
}

/// Ctrl+W: the placeholder at the cursor goes as a whole, else the word before
/// it.
pub open spec fn after_delete_word(v: EditorState) -> EditorState {
    let edited = match left_of(v.input, v.cursor) {
        Some(p) => EditorState { cursor: p.0, ..without_placeholder(v, p) },
        None => {
            let start = word_start(v.input, v.cursor);
            EditorState { input: without_range(v.input, start, v.cursor), cursor: start, ..v }
        },
    };
    EditorState { clean: None, is_pasted: false, ..edited }
}

pub open spec fn after_backspace(v: EditorState) -> EditorState {
    let edited = if v.cursor > 0 {
        match left_of(v.input, v.cursor) {
            Some(p) => EditorState { cursor: p.0, clean: None, ..without_placeholder(v, p) },
            None => EditorState {
                input: without_range(v.input, v.cursor - 1, v.cursor),
                cursor: v.cursor - 1,
                clean: None,
                ..v
            },
        }
    } else {
        v
    };
    EditorState { is_pasted: false, ..edited }
}

pub open spec fn after_delete(v: EditorState) -> EditorState {
    let edited = match right_of(v.input, v.cursor) {
        Some(p) => without_placeholder(v, p),
        None => EditorState { input: without_range(v.input, v.cursor, v.cursor + 1), ..v },
    };
    EditorState { clean: None, is_pasted: false, ..edited }
}

/// A typed character: behind the placeholder that the cursor is inside of, and
/// never a control character.
pub open spec fn after_char(v: EditorState, ch: char) -> EditorState {
    let edited = if disallowed(ch) {
        v
    } else {
        let at = match around(v.input, v.cursor) {
            Some(p) => p.1,
            None => v.cursor,
        };
        EditorState {
            input: inserted(v.input, at, seq![ch]),
            cursor: at + 1,
            clean: None,
            ..v
        }
    };
    EditorState { is_pasted: false, ..edited }
}

pub open spec fn after_left(v: EditorState) -> EditorState {
    EditorState {
        cursor: match around(v.input, v.cursor) {
            Some(p) => p.0,
            None => if v.cursor > 0 {
                v.cursor - 1
            } else {
                0
            },
        },
        ..v
    }
}

pub open spec fn after_right(v: EditorState) -> EditorState {
    EditorState {
        cursor: match around(v.input, v.cursor) {
            Some(p) => p.1,
            None => clamped(v.input, v.cursor + 1),
        },
        ..v
    }
}

/// Tab: completes a slash command, else switches the mode.
pub open spec fn after_tab(v: EditorState) -> EditorState {
    if begins_with(v.input, "/"@) {
        match completion(v.input) {
            Some(c) => EditorState {
                input: command_name(c),
                cursor: command_name(c).len() as int,
                clean: None,
                ..v
            },
            None => v,
        }
    } else {
        EditorState { mode: mode_after(v.mode), ..v }
    }
}

pub open spec fn after_paste(v: EditorState, lang: Lang, text: Seq<char>) -> EditorState {
    let put = paste_insertion(lang, text, v.pasted.len() + 1);
    EditorState {
        input: inserted(v.input, v.cursor, put),
        cursor: v.cursor + put.len(),
        pasted: if is_long_paste(stripped(text)) {
            v.pasted.push(Some(stripped(text)))
        } else {
            v.pasted
        },
        clean: None,
        is_pasted: true,
        ..v
    }
}

/// The keys that edit in the same way wherever the editor is used.
pub open spec fn after_edit_key(
    v: EditorState,
    code: KeyCode,
    modifiers: KeyModifiers,
    width: int,
) -> Option<EditorState> {
    match code {
        KeyCode::Left => Some(after_left(v)),
        KeyCode::Right => Some(after_right(v)),
        KeyCode::Home => Some(EditorState { cursor: 0, ..v }),
        KeyCode::End => Some(EditorState { cursor: v.input.len() as int, ..v }),
        KeyCode::Up => Some(after_up(v, width)),
        KeyCode::Down => Some(after_down(v, width)),
        KeyCode::Backspace => Some(after_backspace(v)),
        KeyCode::Delete => Some(after_delete(v)),
        KeyCode::Enter => if modifiers.shift {
            Some(after_newline(v))
        } else {
            None
        },
        KeyCode::Char(ch) => if !modifiers.control {
            Some(after_char(v, ch))
        } else if ch == 'j' {
            Some(after_newline(v))
        } else if ch == 'w' {
            Some(after_delete_word(v))
        } else {
            None
        },
        _ => None,
    }
}

/// What a submitted line turns into.
#[derive(Debug)]
pub struct LiveSubmission {
    pub content: String,
    pub display_content: String,
    pub images: Vec<Option<PastedImage>>,
}

/// The text that a line stands for once its placeholders are unfolded.
pub open spec fn content_of(v: EditorState) -> Seq<char> {
    expanded(stripped(v.input), v.pasted)
}

/// The editor behind a submission: the line and what was pasted into it gone.
pub open spec fn after_submit(v: EditorState) -> EditorState {
    EditorState {
        input: Seq::empty(),
        cursor: 0,
        clean: None,
        is_pasted: false,
        images: Seq::empty(),
        pasted: Seq::empty(),
        ..v
    }
}

pub open spec fn is_submission_of(s: LiveSubmission, v: EditorState) -> bool {
    &&& s.content@ == trimmed(content_of(v))
    &&& s.display_content@ == trimmed(stripped(v.input))
    &&& s.images@ == v.images
}

/// What the clipboard holds, as far as the editor cares.
#[derive(Debug)]
pub enum ClipboardContent {
    /// A picture, and the name of the file it was written to, if it was.
    Image { mime: String, data: Vec<u8>, filename: Option<String> },
    /// The path of a picture, and the last part of that path, if it has one.
    ImagePath { path: String, filename: Option<String> },
    TextPath(String),
    Text(String),
    Nothing,
}

/// The placeholder of the picture number `index`.
pub open spec fn image_token(index: nat, filename: Option<Seq<char>>) -> Seq<char> {
    match filename {
        Some(name) => "[Image "@ + decimal(index) + ": "@ + name + "]"@,
        None => "[Image "@ + decimal(index) + "]"@,
    }
}

/// What a paste from the clipboard puts into the line.
pub open spec fn clipboard_insertion(v: EditorState, lang: Lang, c: ClipboardContent) -> Seq<char> {
    match c {
        ClipboardContent::Image { filename, .. } => image_token(
            v.images.len() + 1,
            match filename {
                Some(name) => Some(name@),
                None => None,
            },
        ),
        ClipboardContent::ImagePath { filename, .. } => image_token(
            v.images.len() + 1,
            match filename {
                Some(name) => Some(name@),
                None => Some("image"@),
            },
        ),
        ClipboardContent::TextPath(path) => path@,
        ClipboardContent::Text(text) => paste_insertion(lang, text@, v.pasted.len() + 1),
        ClipboardContent::Nothing => Seq::empty(),
    }
}

/// The editor behind a paste from the clipboard.
pub open spec fn after_clipboard(v: EditorState, lang: Lang, c: ClipboardContent) -> EditorState {
    let put = clipboard_insertion(v, lang, c);
    let edited = EditorState {
        input: inserted(v.input, v.cursor, put),
        cursor: v.cursor + put.len(),
        clean: None,
        is_pasted: false,
        ..v
    };
    match c {
        ClipboardContent::Image { mime, data, .. } => EditorState {
            images: v.images.push(Some(PastedImage::Binary { mime, data })),
            ..edited
        },
        ClipboardContent::ImagePath { path, .. } => EditorState {
            images: v.images.push(Some(PastedImage::Path(path))),
            ..edited
        },
        ClipboardContent::TextPath(_) => edited,
        ClipboardContent::Text(text) => after_paste(v, lang, text@),
        ClipboardContent::Nothing => EditorState { clean: None, ..v },
    }
}

pub fn image_placeholder(index: usize, filename: Option<&str>) -> (r: String)
    ensures
        r@ == image_token(
            index as nat,
            match filename {
                Some(name) => Some(name@),
                None => None,
            },
        ),
{
    let number = decimal_text(index as u64);
    let mut r = "[Image ".to_owned();
    r.append(number.as_str());
    if let Some(name) = filename {
        r.append(": ");
        r.append(name);
    }
    r.append("]");
    r
}

proof fn lemma_pasted_views_update(v: Seq<Option<PastedText>>, index: Option<usize>)
    ensures
        pasted_views(with_slot_emptied(v, index)) == with_slot_emptied(pasted_views(v), index),
{
    assert(pasted_views(v).len() == v.len());
    assert(pasted_views(with_slot_emptied(v, index)) =~= with_slot_emptied(
        pasted_views(v),
        index,
    ));
}

/// An editor with an empty line, behind the last entry of its history.
pub open spec fn fresh_editor(mode: AgentMode, history: Seq<Seq<char>>) -> EditorState {
    EditorState {
        mode,
        input: Seq::empty(),
        cursor: 0,
        history,
        history_index: history.len() as int,
        clean: None,
        is_pasted: false,
        images: Seq::empty(),
        pasted: Seq::empty(),
        armed_until: None,
        focused: true,
    }
}

impl LiveReplEditor {
    pub fn new(mode: AgentMode, history: Vec<String>) -> (r: Self)
        ensures
            r@ == fresh_editor(mode, texts(history@)),
            r@.wf(),
    {
        let history_index = history.len();
        let r = LiveReplEditor {
            mode,
            input: String::new(),
            cursor: 0,
            history,
            history_index,
            history_clean_index: None,
            is_pasted: false,
            pasted_images: Vec::new(),
            pasted_texts: Vec::new(),
            escape_armed_until: None,
            focused: true,
        };
        assert(r@.images =~= Seq::empty());
        assert(r@.pasted =~= Seq::empty());
        r
    }

    fn drop_pasted(&mut self)
        ensures
            final(self)@ == (EditorState {
                images: Seq::empty(),
                pasted: Seq::empty(),
                ..old(self)@
            }),
    {
        self.pasted_images = Vec::new();
        self.pasted_texts = Vec::new();
        assert(self@.images =~= Seq::empty());
        assert(self@.pasted =~= Seq::empty());
    }

    pub fn clear(&mut self)
        ensures
            final(self)@ == old(self)@.cleared(),
    {
        self.drop_pasted();
        self.input = String::new();
        self.cursor = 0;
        self.history_clean_index = None;
        self.is_pasted = false;
        self.escape_armed_until = None;
    }

    /// Takes the line out of the editor; a line of nothing but white space
    /// stays where it is.
    pub fn submit(&mut self) -> (r: Option<LiveSubmission>)
        ensures
            match r {
                None => trimmed(content_of(old(self)@)).len() == 0 && *final(self) == *old(self),
                Some(s) => {
                    &&& trimmed(content_of(old(self)@)).len() > 0
                    &&& is_submission_of(s, old(self)@)
                    &&& final(self)@ == after_submit(old(self)@)
                },
            },
    {
        let display = strip_terminal_control_sequences(self.input.as_str());
        let all = expand_pasted_text_placeholders(display.as_str(), &self.pasted_texts);
        let content = trim(all.as_str());
        if content.is_empty() {
            return None;
        }
        let content = content.to_owned();
        let display_content = trim(display.as_str()).to_owned();
        let mut images: Vec<Option<PastedImage>> = Vec::new();
        std::mem::swap(&mut images, &mut self.pasted_images);
        self.input = String::new();
        self.cursor = 0;
        self.history_clean_index = None;
        self.is_pasted = false;
        self.pasted_texts = Vec::new();
        assert(self@.images =~= Seq::empty());
        assert(self@.pasted =~= Seq::empty());
        Some(LiveSubmission { content, display_content, images })
    }

    pub fn record_history(&mut self, content: &str)
        ensures
            final(self)@ == (EditorState {
                history: old(self)@.history.push(content@),
                history_index: old(self)@.history.len() as int + 1,
                ..old(self)@
            }),
    {
        let entry = content.to_owned();
        proof {
            crate::text::lemma_texts_push(self.history@, entry);
        }
        self.history.push(entry);
        self.history_index = self.history.len();
    }

    fn show_entry(&mut self, i: usize)
        requires
            i <= old(self)@.history.len(),
        ensures
            final(self)@ == with_entry(old(self)@, i as int),
    {
        self.drop_pasted();
        assert(texts(self.history@).len() == self.history@.len());
        let input = if i < self.history.len() {
            assert(texts(self.history@)[i as int] == self.history@[i as int]@);
            self.history[i].clone()
        } else {
            String::new()
        };
        self.cursor = input.as_str().unicode_len();
        self.input = input;
        self.history_index = i;
        self.history_clean_index = Some(i);
        self.is_pasted = false;
    }

    fn move_vertical(&mut self, up: bool, size: Option<(u16, u16)>)
        ensures
            final(self)@ == (EditorState {
                cursor: vertical(old(self)@, up, box_width(size)),
                ..old(self)@
            }),
            final(self)@.cursor <= old(self)@.input.len(),
    {
        let direction: i32 = if up {
            -1
        } else {
            1
        };
        let to = repl_move_cursor_vertical("  ", self.input.as_str(), self.cursor, direction, size);
        proof {
            if self@.input.len() > 0 {
                let at = clamped(self@.input, self@.cursor);
                let w = box_width(size);
                assert(moved_to(self@.input, w, at, up, to as int));
                let r = vertical(self@, up, w);
                crate::layout::law_vertical_move_is_determined(
                    self@.input,
                    w,
                    at,
                    up,
                    to as int,
                    r,
                );
            }
        }
        self.cursor = to;
    }

    fn remove_placeholder(&mut self, start: usize, end: usize)
        requires
            start < end <= old(self)@.input.len(),
        ensures
            final(self)@ == without_placeholder(old(self)@, (start as int, end as int)),
    {
        proof {
            lemma_pasted_views_update(
                self.pasted_texts@,
                pasted_index(self.input@.subrange(start as int, end as int)),
            );
        }
        clear_placeholder_payload(
            self.input.as_str(),
            start,
            end,
            &mut self.pasted_images,
            &mut self.pasted_texts,
        );
        remove_range_chars(&mut self.input, start, end);
    }

    fn paste_text(&mut self, lang: Lang, text: String)
        requires
            old(self).pasted_texts@.len() < usize::MAX,
            old(self).cursor + paste_insertion(lang, text@, old(self)@.pasted.len() + 1).len()
                <= usize::MAX,
        ensures
            final(self)@ == after_paste(old(self)@, lang, text@),
    {
        assert(self@.pasted.len() == self.pasted_texts@.len());
        let ghost before = self.pasted_texts@;
        insert_pasted_text_at_cursor(
            lang,
            &mut self.input,
            &mut self.cursor,
            text,
            &mut self.pasted_texts,
        );
        self.history_clean_index = None;
        self.is_pasted = true;
        proof {
            if is_long_paste(stripped(text@)) {
                assert(self.pasted_texts@ =~= before.push(self.pasted_texts@.last()));
                assert(pasted_views(self.pasted_texts@) =~= pasted_views(before).push(
                    Some(stripped(text@)),
                ));
            }
        }
    }

    fn press_left(&mut self)
        requires
            old(self)@.wf(),
        ensures
            final(self)@ == after_left(old(self)@),
            final(self)@.wf(),
    {
        if let Some((start, _)) = find_around(self.input.as_str(), self.cursor) {
            self.cursor = start;
        } else {
            self.cursor = self.cursor.saturating_sub(1);
        }
    }

    fn press_right(&mut self)
        requires
            old(self)@.wf(),
        ensures
            final(self)@ == after_right(old(self)@),
            final(self)@.wf(),
    {
        if let Some((_, end)) = find_around(self.input.as_str(), self.cursor) {
            self.cursor = end;
        } else {
            let n = self.input.as_str().unicode_len();
            self.cursor = if self.cursor < n {
                self.cursor + 1
            } else {
                n
            };
        }
    }

    fn press_up(&mut self, size: Option<(u16, u16)>)
        requires
            old(self)@.wf(),
        ensures
            final(self)@ == after_up(old(self)@, box_width(size)),
            final(self)@.wf(),
    {
        assert(texts(self.history@).len() == self.history@.len());
        if self.history.len() > 0 && repl_should_browse_history(
            self.input.as_str(),
            &self.history,
            self.history_clean_index,
        ) {
            let from: usize = if self.input.as_str().is_empty() {
                self.history.len()
            } else {
                self.history_index
            };
            self.show_entry(from.saturating_sub(1));
        } else {
            self.move_vertical(true, size);
        }
    }

    fn press_down(&mut self, size: Option<(u16, u16)>)
        requires
            old(self)@.wf(),
        ensures
            final(self)@ == after_down(old(self)@, box_width(size)),
            final(self)@.wf(),
    {
        assert(texts(self.history@).len() == self.history@.len());
        if repl_history_is_clean(self.input.as_str(), &self.history, self.history_clean_index) {
            let n: usize = self.history.len();
            if self.history_index < n && self.history_index < n - 1 {
                self.show_entry(self.history_index + 1);
            } else {
                self.drop_pasted();
                self.history_index = n;
                self.input = String::new();
                self.cursor = 0;
                self.history_clean_index = None;
                self.is_pasted = false;
            }
        } else {
            self.move_vertical(false, size);
        }
    }

    fn insert_newline(&mut self)
        requires
            old(self)@.wf(),
            old(self).cursor < usize::MAX,
            old(self)@.input.len() < usize::MAX,
        ensures
            final(self)@ == after_newline(old(self)@),
            final(self)@.wf(),
    {
        insert_newline_at_cursor(&mut self.input, &mut self.cursor);
        self.history_clean_index = None;
        self.is_pasted = false;
    }

    fn press_backspace(&mut self)
        requires
            old(self)@.wf(),
        ensures
            final(self)@ == after_backspace(old(self)@),
            final(self)@.wf(),
    {
        if self.cursor > 0 {
            if let Some((start, end)) = find_left_of(self.input.as_str(), self.cursor) {
                self.remove_placeholder(start, end);
                self.cursor = start;
            } else {
                remove_char_before_cursor(&mut self.input, &mut self.cursor);
            }
            self.history_clean_index = None;
        }
        self.is_pasted = false;
    }

    fn press_delete(&mut self)
        requires
            old(self)@.wf(),
        ensures
            final(self)@ == after_delete(old(self)@),
            final(self)@.wf(),
    {
        if let Some((start, end)) = find_right_of(self.input.as_str(), self.cursor) {
            self.remove_placeholder(start, end);
        } else {
            remove_char_at_cursor(&mut self.input, self.cursor);
        }
        self.history_clean_index = None;
        self.is_pasted = false;
    }

    fn delete_word(&mut self)
        requires
            old(self)@.wf(),
        ensures
            final(self)@ == after_delete_word(old(self)@),
            final(self)@.wf(),
    {
        if let Some((start, end)) = find_left_of(self.input.as_str(), self.cursor) {
            self.remove_placeholder(start, end);
            self.cursor = start;
        } else {
            proof {
                crate::edit::lemma_word_start(self@.input, self@.cursor);
            }
            remove_word_before_cursor(&mut self.input, &mut self.cursor);
        }
        self.history_clean_index = None;
        self.is_pasted = false;
    }

    fn type_char(&mut self, ch: char)
        requires
            old(self)@.wf(),
            old(self).cursor < usize::MAX,
            old(self)@.input.len() < usize::MAX,
        ensures
            final(self)@ == after_char(old(self)@, ch),
            final(self)@.wf(),
    {
        if !is_disallowed_control_char(ch) {
            if let Some((_, end)) = find_around(self.input.as_str(), self.cursor) {
                self.cursor = end;
            }
            insert_char_at_cursor(&mut self.input, &mut self.cursor, ch);
            self.history_clean_index = None;
        }
        self.is_pasted = false;
    }

    /// Handles a key that edits the line; says whether it was one.
    pub fn edit_key(
        &mut self,
        code: KeyCode,
        modifiers: KeyModifiers,
        size: Option<(u16, u16)>,
    ) -> (handled: bool)
        requires
            old(self)@.wf(),
            old(self).cursor < usize::MAX,
            old(self)@.input.len() < usize::MAX,
        ensures
            match after_edit_key(old(self)@, code, modifiers, box_width(size)) {
                Some(next) => handled && final(self)@ == next,
                None => !handled && *final(self) == *old(self),
            },
            final(self)@.wf(),
    {
        match code {
            KeyCode::Left => self.press_left(),
            KeyCode::Right => self.press_right(),
            KeyCode::Home => {
                self.cursor = 0;
            },
            KeyCode::End => {
                self.cursor = self.input.as_str().unicode_len();
            },
            KeyCode::Up => self.press_up(size),
            KeyCode::Down => self.press_down(size),
            KeyCode::Enter if modifiers.shift => self.insert_newline(),
            KeyCode::Backspace => self.press_backspace(),
            KeyCode::Delete => self.press_delete(),
            KeyCode::Char(ch) if !modifiers.control => self.type_char(ch),
            KeyCode::Char('j') => self.insert_newline(),
            KeyCode::Char('w') => self.delete_word(),
            _ => {
                return false;
            },
        }
        true
    }

    fn press_tab(&mut self)
        requires
            old(self)@.wf(),
        ensures
            final(self)@ == after_tab(old(self)@),
            final(self)@.wf(),
    {
        if starts_with(self.input.as_str(), "/") {
            if let Some(completed) = complete_repl_command(self.input.as_str()) {
                self.input = completed.to_owned();
                self.cursor = completed.unicode_len();
                self.history_clean_index = None;
            }
        } else {
            self.mode = self.mode.next();
        }
    }
}

/// What the editor asks of its surroundings.
#[derive(Debug)]
pub enum LiveEditorAction {
    Idle,
    Redraw,
    ClearScreen,
    EmptySubmit,
    Submit(LiveSubmission),
    Interrupt,
    Exit,
    /// Put the text on the clipboard, then redraw.
    Copy(String),
    /// Read the clipboard, hand it to `paste_clipboard`, then redraw.
    ReadClipboard,
}

/// The pasted text behind the placeholder next to the cursor.
pub open spec fn copied_text(v: EditorState) -> Option<Seq<char>> {
    match near_cursor(v.input, v.cursor) {
        Some(p) => match slot_of(
            pasted_index(v.input.subrange(p.0, p.1)),
            v.pasted.len() as int,
        ) {
            Some(k) => v.pasted[k],
            None => None,
        },
        None => None,
    }
}

/// The kinds of answers to an event.
pub enum Outcome {
    Idle,
    Redraw,
    ClearScreen,
    EmptySubmit,
    Submit,
    Interrupt,
    Exit,
    Copy(Seq<char>),
    ReadClipboard,
}

/// Whether `action` is an answer of the kind `outcome`, given in state `v`.
pub open spec fn answers(action: LiveEditorAction, outcome: Outcome, v: EditorState) -> bool {
    match (action, outcome) {
        (LiveEditorAction::Idle, Outcome::Idle) => true,
        (LiveEditorAction::Redraw, Outcome::Redraw) => true,
        (LiveEditorAction::ClearScreen, Outcome::ClearScreen) => true,
        (LiveEditorAction::EmptySubmit, Outcome::EmptySubmit) => true,
        (LiveEditorAction::Submit(s), Outcome::Submit) => is_submission_of(s, v),
        (LiveEditorAction::Interrupt, Outcome::Interrupt) => true,
        (LiveEditorAction::Exit, Outcome::Exit) => true,
        (LiveEditorAction::Copy(text), Outcome::Copy(wanted)) => text@ == wanted,
        (LiveEditorAction::ReadClipboard, Outcome::ReadClipboard) => true,
        _ => false,
    }
}

/// Esc never touches the line: while a reply is running it arms the interrupt,
/// and a second one within the window interrupts.
pub open spec fn on_escape(v: EditorState, now: int, allow_interrupt: bool) -> (
    EditorState,
    Outcome,
) {
    if !allow_interrupt {
        (v, Outcome::Redraw)
    } else if v.armed_until matches Some(deadline) && now < deadline {
        (v.disarmed(), Outcome::Interrupt)
    } else {
        (EditorState { armed_until: Some(now + ESCAPE_WINDOW_MS), ..v }, Outcome::Redraw)
    }
}

/// A key of the live editor that is pressed.
pub open spec fn on_live_key(
    v: EditorState,
    code: KeyCode,
    modifiers: KeyModifiers,
    now: int,
    width: int,
    allow_interrupt: bool,
) -> (EditorState, Outcome) {
    match after_edit_key(v, code, modifiers, width) {
        Some(next) => (next, Outcome::Redraw),
        None => match code {
            KeyCode::Tab => (after_tab(v), Outcome::Redraw),
            KeyCode::Esc => on_escape(v, now, allow_interrupt),
            KeyCode::Enter => if trimmed(content_of(v)).len() > 0 {
                (after_submit(v), Outcome::Submit)
            } else {
                (v, Outcome::EmptySubmit)
            },
            KeyCode::Char('c') if !modifiers.shift => if v.input.len() == 0 {
                (v, Outcome::Interrupt)
            } else {
                (v.cleared(), Outcome::Redraw)
            },
            KeyCode::Char('d') if v.input.len() == 0 => (v, Outcome::Exit),
            KeyCode::Char(ch) if modifiers.shift && (ch == 'c' || ch == 'C') => match copied_text(v) {
                Some(text) => (v, Outcome::Copy(text)),
                None => (v, Outcome::Redraw),
            },
            KeyCode::Char('v') => (v, Outcome::ReadClipboard),
            KeyCode::Char('l') => (v, Outcome::ClearScreen),
            _ => (v, Outcome::Idle),
        },
    }
}

/// What the live editor makes of an event.
pub open spec fn on_live_event(
    before: EditorState,
    lang: Lang,
    event: Event,
    now: int,
    width: int,
    allow_interrupt: bool,
) -> (EditorState, Outcome) {
    let v = if event matches Event::Key { code: KeyCode::Esc, .. } {
        before
    } else {
        before.disarmed()
    };
    match event {
        Event::Key { release: true, .. } => (v, Outcome::Idle),
        Event::Key { code, modifiers, .. } => on_live_key(
            v,
            code,
            modifiers,
            now,
            width,
            allow_interrupt,
        ),
        Event::Resize => (v, Outcome::Redraw),
        Event::FocusGained => (EditorState { focused: true, ..v }, Outcome::Idle),
        Event::FocusLost => (EditorState { focused: false, ..v }, Outcome::Idle),
        Event::Paste(text) => (after_paste(v, lang, text@), Outcome::Redraw),
        Event::Other => (v, Outcome::Idle),
    }
}

/// Whether the line has room for what the event puts into it.
pub open spec fn has_room(v: EditorState, lang: Lang, event: Event) -> bool {
    &&& v.cursor < usize::MAX
    &&& v.input.len() < usize::MAX
    &&& v.pasted.len() < usize::MAX
    &&& v.images.len() < usize::MAX
    &&& event matches Event::Paste(text) ==> v.cursor + paste_insertion(
        lang,
        text@,
        v.pasted.len() + 1,
    ).len() <= usize::MAX
}

impl LiveReplEditor {
    fn copy_near_cursor(&self) -> (r: Option<String>)
        ensures
            match (r, copied_text(self@)) {
                (Some(text), Some(wanted)) => text@ == wanted,
                (None, None) => true,
                _ => false,
            },
    {
        assert(self@.pasted.len() == self.pasted_texts@.len());
        let r = placeholder_text_near_cursor(self.input.as_str(), self.cursor, &self.pasted_texts);
        proof {
            if let Some(p) = near_cursor(self@.input, self@.cursor) {
                let slot = slot_of(
                    pasted_index(self@.input.subrange(p.0, p.1)),
                    self@.pasted.len() as int,
                );
                if let Some(k) = slot {
                    assert(self@.pasted[k] == match self.pasted_texts@[k] {
                        Some(q) => Some(q.text@),
                        None => None,
                    });
                }
            }
        }
        r
    }

    fn press_escape(&mut self, now_ms: u64, allow_interrupt: bool) -> (action: LiveEditorAction)
        requires
            now_ms + ESCAPE_WINDOW_MS <= u64::MAX,
        ensures
            ({
                let (next, outcome) = on_escape(old(self)@, now_ms as int, allow_interrupt);
                final(self)@ == next && answers(action, outcome, old(self)@)
            }),
    {
        if allow_interrupt {
            if let Some(deadline) = self.escape_armed_until {
                if now_ms < deadline {
                    self.escape_armed_until = None;
                    return LiveEditorAction::Interrupt;
                }
            }
            self.escape_armed_until = Some(now_ms + ESCAPE_WINDOW_MS);
        }
        LiveEditorAction::Redraw
    }

    fn live_key(
        &mut self,
        code: KeyCode,
        modifiers: KeyModifiers,
        now_ms: u64,
        size: Option<(u16, u16)>,
        allow_interrupt: bool,
    ) -> (action: LiveEditorAction)
        requires
            old(self)@.wf(),
            old(self).cursor < usize::MAX,
            old(self)@.input.len() < usize::MAX,
            now_ms + ESCAPE_WINDOW_MS <= u64::MAX,
        ensures
            ({
                let (next, outcome) = on_live_key(
                    old(self)@,
                    code,
                    modifiers,
                    now_ms as int,
                    box_width(size),
                    allow_interrupt,
                );
                final(self)@ == next && answers(action, outcome, old(self)@)
            }),
            final(self)@.wf(),
    {
        if self.edit_key(code, modifiers, size) {
            return LiveEditorAction::Redraw;
        }
        let empty = self.input.as_str().is_empty();
        if code == KeyCode::Tab {
            self.press_tab();
            return LiveEditorAction::Redraw;
        }
        if code == KeyCode::Esc {
            return self.press_escape(now_ms, allow_interrupt);
        }
        if code == KeyCode::Enter {
            return match self.submit() {
                Some(submission) => LiveEditorAction::Submit(submission),
                None => LiveEditorAction::EmptySubmit,
            };
        }
        let ch: char = match code {
            KeyCode::Char(ch) => ch,
            _ => {
                return LiveEditorAction::Idle;
            },
        };
        if ch == 'c' && !modifiers.shift {
            if empty {
                LiveEditorAction::Interrupt
            } else {
                self.clear();
                LiveEditorAction::Redraw
            }
        } else if ch == 'd' && empty {
            LiveEditorAction::Exit
        } else if (ch == 'c' || ch == 'C') && modifiers.shift {
            match self.copy_near_cursor() {
                Some(text) => LiveEditorAction::Copy(text),
                None => LiveEditorAction::Redraw,
            }
        } else if ch == 'v' {
            LiveEditorAction::ReadClipboard
        } else if ch == 'l' {
            LiveEditorAction::ClearScreen
        } else {
            LiveEditorAction::Idle
        }
    }

    pub fn handle_event(
        &mut self,
        lang: Lang,
        event: Event,
        now_ms: u64,
        size: Option<(u16, u16)>,
        allow_interrupt: bool,
    ) -> (action: LiveEditorAction)
        requires
            old(self)@.wf(),
            has_room(old(self)@, lang, event),
            now_ms + ESCAPE_WINDOW_MS <= u64::MAX,
        ensures
            ({
                let (next, outcome) = on_live_event(
                    old(self)@,
                    lang,
                    event,
                    now_ms as int,
                    box_width(size),
                    allow_interrupt,
                );
                final(self)@ == next && answers(action, outcome, old(self)@)
            }),
            final(self)@.wf(),
    {
        assert(self@.pasted.len() == self.pasted_texts@.len());
        let is_escape = matches!(event, Event::Key { code: KeyCode::Esc, .. });
        if !is_escape {
            self.escape_armed_until = None;
        }
        match event {
            Event::Key { code, modifiers, release } => {
                if release {
                    LiveEditorAction::Idle
                } else {
                    let ghost v = self@;
                    let action = self.live_key(code, modifiers, now_ms, size, allow_interrupt);
                    assert(is_escape || v == old(self)@.disarmed());
                    action
                }
            },
            Event::Resize => LiveEditorAction::Redraw,
            Event::FocusGained => {
                self.focused = true;
                LiveEditorAction::Idle
            },
            Event::FocusLost => {
                self.focused = false;
                LiveEditorAction::Idle
            },
            Event::Paste(text) => {
                self.paste_text(lang, text);
                LiveEditorAction::Redraw
            },
            Event::Other => LiveEditorAction::Idle,
        }
    }

    /// The number that the next pasted picture gets.
    pub fn next_image_index(&self) -> (r: usize)
        requires
            self@.images.len() < usize::MAX,
        ensures
            r == self@.images.len() + 1,
    {
        self.pasted_images.len() + 1
    }

    /// Puts what the clipboard holds into the line.
    pub fn paste_clipboard(&mut self, lang: Lang, content: ClipboardContent)
        requires
            old(self)@.wf(),
            old(self)@.pasted.len() < usize::MAX,
            old(self)@.images.len() < usize::MAX,
            old(self)@.cursor + clipboard_insertion(old(self)@, lang, content).len() <= usize::MAX,
        ensures
            final(self)@ == after_clipboard(old(self)@, lang, content),
            final(self)@.wf(),
    {
        assert(self@.pasted.len() == self.pasted_texts@.len());
        match content {
            ClipboardContent::Image { mime, data, filename } => {
                let index = self.next_image_index();
                let token = match &filename {
                    Some(name) => image_placeholder(index, Some(name.as_str())),
                    None => image_placeholder(index, None),
                };
                insert_str_at_cursor(&mut self.input, &mut self.cursor, token.as_str());
                self.pasted_images.push(Some(PastedImage::Binary { mime, data }));
                self.is_pasted = false;
            },
            ClipboardContent::ImagePath { path, filename } => {
                let index = self.next_image_index();
                let token = match &filename {
                    Some(name) => image_placeholder(index, Some(name.as_str())),
                    None => image_placeholder(index, Some("image")),
                };
                insert_str_at_cursor(&mut self.input, &mut self.cursor, token.as_str());
                self.pasted_images.push(Some(PastedImage::Path(path)));
                self.is_pasted = false;
            },
            ClipboardContent::TextPath(path) => {
                insert_str_at_cursor(&mut self.input, &mut self.cursor, path.as_str());
                self.is_pasted = false;
            },
            ClipboardContent::Text(text) => {
                self.paste_text(lang, text);
            },
            ClipboardContent::Nothing => {},
        }
        self.history_clean_index = None;
    }
}

/// What reading a line at the plain prompt can come to.
#[derive(Debug)]
pub enum PromptAction {
    Idle,
    Render,
    ClearScreen,
    /// The line is done: its text, what is echoed for it, and its pictures.
    Submit { content: String, echo: String, images: Vec<Option<PastedImage>> },
    /// Reading ends without a line.
    Cancel,
    Copy(String),
    ReadClipboard,
}

pub enum PromptOutcome {
    Idle,
    Render,
    ClearScreen,
    Submit,
    Cancel,
    Copy(Seq<char>),
    ReadClipboard,
}

pub open spec fn prompt_answers(action: PromptAction, outcome: PromptOutcome, v: EditorState) -> bool {
    match (action, outcome) {
        (PromptAction::Idle, PromptOutcome::Idle) => true,
        (PromptAction::Render, PromptOutcome::Render) => true,
        (PromptAction::ClearScreen, PromptOutcome::ClearScreen) => true,
        (PromptAction::Submit { content, echo, images }, PromptOutcome::Submit) => {
            &&& content@ == content_of(v)
            &&& echo@ == stripped(v.input)
            &&& images@ == v.images
        },
        (PromptAction::Cancel, PromptOutcome::Cancel) => true,
        (PromptAction::Copy(text), PromptOutcome::Copy(wanted)) => text@ == wanted,
        (PromptAction::ReadClipboard, PromptOutcome::ReadClipboard) => true,
        _ => false,
    }
}

/// A key at the plain prompt. Esc leaves the line as it is; a submission hands the
/// line out as it is.
pub open spec fn on_prompt_key(
    v: EditorState,
    code: KeyCode,
    modifiers: KeyModifiers,
    width: int,
) -> (EditorState, PromptOutcome) {
    match after_edit_key(v, code, modifiers, width) {
        Some(next) => (next, PromptOutcome::Render),
        None => match code {
            KeyCode::Tab => (
                EditorState { is_pasted: false, ..after_tab(v) },
                PromptOutcome::Render,
            ),
            KeyCode::Esc => (v, PromptOutcome::Render),
            KeyCode::Enter => (
                EditorState { images: Seq::empty(), input: content_of(v), ..v },
                PromptOutcome::Submit,
            ),
            KeyCode::Char('c') if !modifiers.shift => if v.input.len() == 0 {
                (v, PromptOutcome::Cancel)
            } else {
                (v.cleared(), PromptOutcome::Render)
            },
            KeyCode::Char('d') if v.input.len() == 0 => (v, PromptOutcome::Cancel),
            KeyCode::Char('l') => (v, PromptOutcome::ClearScreen),
            KeyCode::Char(ch) if modifiers.shift && (ch == 'c' || ch == 'C') => match copied_text(v) {
                Some(text) => (v, PromptOutcome::Copy(text)),
                None => (v, PromptOutcome::Idle),
            },
            KeyCode::Char('v') => (v, PromptOutcome::ReadClipboard),
            _ => (v, PromptOutcome::Idle),
        },
    }
}

/// What the plain prompt makes of an event.
pub open spec fn on_prompt_event(
    v: EditorState,
    lang: Lang,
    event: Event,
    width: int,
) -> (EditorState, PromptOutcome) {
    match event {
        Event::Key { code, modifiers, .. } => on_prompt_key(v, code, modifiers, width),
        Event::Paste(text) => (after_paste(v, lang, text@), PromptOutcome::Render),
        _ => (v, PromptOutcome::Idle),
    }
}

impl LiveReplEditor {
    /// An editor for one line at the plain prompt, filled with `prefill`.
    pub fn for_prompt(mode: AgentMode, prefill: &str, history: Vec<String>) -> (r: Self)
        ensures
            r@ == (EditorState {
                input: stripped(prefill@),
                cursor: stripped(prefill@).len() as int,
                ..fresh_editor(mode, texts(history@))
            }),
            r@.wf(),
    {
        let mut r = LiveReplEditor::new(mode, history);
        let input = strip_terminal_control_sequences(prefill);
        r.cursor = input.as_str().unicode_len();
        r.input = input;
        r
    }

    fn prompt_submit(&mut self) -> (action: PromptAction)
        requires
            old(self)@.wf(),
        ensures
            prompt_answers(action, PromptOutcome::Submit, old(self)@),
            final(self)@ == (EditorState {
                images: Seq::empty(),
                input: content_of(old(self)@),
                ..old(self)@
            }),
    {
        let echo = strip_terminal_control_sequences(self.input.as_str());
        let content = expand_pasted_text_placeholders(echo.as_str(), &self.pasted_texts);
        let mut images: Vec<Option<PastedImage>> = Vec::new();
        std::mem::swap(&mut images, &mut self.pasted_images);
        self.input = content.clone();
        assert(self@.images =~= Seq::empty());
        PromptAction::Submit { content, echo, images }
    }

    fn prompt_key(
        &mut self,
        code: KeyCode,
        modifiers: KeyModifiers,
        size: Option<(u16, u16)>,
    ) -> (action: PromptAction)
        requires
            old(self)@.wf(),
            old(self).cursor < usize::MAX,
            old(self)@.input.len() < usize::MAX,
            old(self)@.armed_until is None,
        ensures
            ({
                let (next, outcome) = on_prompt_key(old(self)@, code, modifiers, box_width(size));
                final(self)@ == next && prompt_answers(action, outcome, old(self)@)
            }),
            final(self)@.wf(),
    {
        if self.edit_key(code, modifiers, size) {
            return PromptAction::Render;
        }
        let empty = self.input.as_str().is_empty();
        if code == KeyCode::Tab {
            self.press_tab();
            self.is_pasted = false;
            return PromptAction::Render;
        }
        if code == KeyCode::Esc {
            return PromptAction::Render;
        }
        if code == KeyCode::Enter {
            return self.prompt_submit();
        }
        let ch: char = match code {
            KeyCode::Char(ch) => ch,
            _ => {
                return PromptAction::Idle;
            },
        };
        if ch == 'c' && !modifiers.shift {
            if empty {
                PromptAction::Cancel
            } else {
                self.clear();
                PromptAction::Render
            }
        } else if ch == 'd' && empty {
            PromptAction::Cancel
        } else if (ch == 'c' || ch == 'C') && modifiers.shift {
            match self.copy_near_cursor() {
                Some(text) => PromptAction::Copy(text),
                None => PromptAction::Idle,
            }
        } else if ch == 'v' {
            PromptAction::ReadClipboard
        } else if ch == 'l' {
            PromptAction::ClearScreen
        } else {
            PromptAction::Idle
        }
    }

    /// One event while a line is read at the plain prompt.
    pub fn read_repl_input(&mut self, lang: Lang, event: Event, size: Option<(u16, u16)>) -> (action:
        PromptAction)
        requires
            old(self)@.wf(),
            has_room(old(self)@, lang, event),
            old(self)@.armed_until is None,
        ensures
            ({
                let (next, outcome) = on_prompt_event(old(self)@, lang, event, box_width(size));
                final(self)@ == next && prompt_answers(action, outcome, old(self)@)
            }),
            final(self)@.wf(),
    {
        assert(self@.pasted.len() == self.pasted_texts@.len());
        match event {
            Event::Key { code, modifiers, .. } => self.prompt_key(code, modifiers, size),
            Event::Paste(text) => {
                self.paste_text(lang, text);
                PromptAction::Render
            },
            _ => PromptAction::Idle,
        }
    }

    /// Puts what the clipboard holds into the line at the plain prompt; says
    /// whether there is anything to draw.
    pub fn prompt_paste_clipboard(&mut self, lang: Lang, content: ClipboardContent) -> (changed: bool)
        requires
            old(self)@.wf(),
            old(self)@.pasted.len() < usize::MAX,
            old(self)@.images.len() < usize::MAX,
            old(self)@.cursor + clipboard_insertion(old(self)@, lang, content).len() <= usize::MAX,
        ensures
            changed == !(content is Nothing),
            final(self)@ == if content is Nothing {
                old(self)@
            } else {
                after_clipboard(old(self)@, lang, content)
            },
            final(self)@.wf(),
    {
        if let ClipboardContent::Nothing = content {
            return false;
        }
        self.paste_clipboard(lang, content);
        true
    }
}

/// Esc leaves the line, its cursor and everything pasted into it untouched,
/// whatever state it is pressed in, below a running reply and at the plain
/// prompt alike.
pub proof fn law_escape_keeps_draft(
    v: EditorState,
    lang: Lang,
    modifiers: KeyModifiers,
    release: bool,
    now: int,
    width: int,
    allow_interrupt: bool,
)
    ensures
        ({
            let event = Event::Key { code: KeyCode::Esc, modifiers, release };
            let next = on_live_event(v, lang, event, now, width, allow_interrupt).0;
            next == (EditorState { armed_until: next.armed_until, ..v })
        }),
        on_prompt_key(v, KeyCode::Esc, modifiers, width).0 == v,
{
}

/// Two presses of Esc within the window interrupt a running reply.
pub proof fn law_double_escape_interrupts(
    v: EditorState,
    lang: Lang,
    modifiers: KeyModifiers,
    first: int,
    second: int,
    width: int,
)
    requires
        v.armed_until is None,
        first <= second < first + ESCAPE_WINDOW_MS,
    ensures
        ({
            let event = Event::Key { code: KeyCode::Esc, modifiers, release: false };
            let (armed, once) = on_live_event(v, lang, event, first, width, true);
            let (after, twice) = on_live_event(armed, lang, event, second, width, true);
            once is Redraw && twice is Interrupt && after == v
        }),
{
}

proof fn lemma_edit_keys_keep_arming(
    v: EditorState,
    code: KeyCode,
    modifiers: KeyModifiers,
    width: int,
)
    ensures
        after_edit_key(v, code, modifiers, width) matches Some(next) ==> next.armed_until
            == v.armed_until,
{
}

/// Any event but Esc takes back an Esc that armed the interrupt.
pub proof fn law_other_events_disarm(
    v: EditorState,
    lang: Lang,
    event: Event,
    now: int,
    width: int,
    allow_interrupt: bool,
)
    requires
        !(event matches Event::Key { code: KeyCode::Esc, .. }),
    ensures
        on_live_event(v, lang, event, now, width, allow_interrupt).0.armed_until is None,
{
    if let Event::Key { code, modifiers, .. } = event {
        lemma_edit_keys_keep_arming(v.disarmed(), code, modifiers, width);
    }
}

/// Ctrl+C never loses the way out: on a draft it clears it, and on the empty
/// line that this leaves the next one interrupts.
pub proof fn law_control_c_clears_then_interrupts(
    v: EditorState,
    lang: Lang,
    now: int,
    width: int,
    allow_interrupt: bool,
)
    requires
        v.input.len() > 0,
    ensures
        ({
            let modifiers = KeyModifiers { control: true, shift: false };
            let event = Event::Key { code: KeyCode::Char('c'), modifiers, release: false };
            let (empty, once) = on_live_event(v, lang, event, now, width, allow_interrupt);
            let twice = on_live_event(empty, lang, event, now, width, allow_interrupt).1;
            once is Redraw && empty == v.cleared() && twice is Interrupt
        }),
{
}

/// No key that edits takes the cursor out of the line, with one exception:
/// Delete inside a placeholder removes the placeholder from under the cursor.
pub proof fn law_edit_keys_keep_cursor_inside(
    v: EditorState,
    code: KeyCode,
    modifiers: KeyModifiers,
    size: Option<(u16, u16)>,
)
    requires
        v.wf(),
        v.cursor_inside(),
        v.input.len() <= usize::MAX,
        !(code is Delete && around(v.input, v.cursor) is Some),
    ensures
        after_edit_key(v, code, modifiers, box_width(size)) matches Some(next)
            ==> next.cursor_inside(),
{
    let width = box_width(size);
    lemma_found_inside(v.input, v.cursor);
    match code {
        KeyCode::Up | KeyCode::Down => {
            if v.input.len() > 0 {
                lemma_vertical_inside(v, true, width);
                lemma_vertical_inside(v, false, width);
            }
        },
        KeyCode::Char(ch) => {
            crate::edit::lemma_word_start(v.input, v.cursor);
        },
        _ => {},
    }
}

proof fn lemma_found_inside(s: Seq<char>, cursor: int)
    ensures
        around(s, cursor) matches Some(p) ==> 0 <= p.0 < cursor < p.1 <= s.len(),
        left_of(s, cursor) matches Some(p) ==> 0 <= p.0 < p.1 <= s.len(),
        right_of(s, cursor) matches Some(p) ==> 0 <= p.0 < p.1 <= s.len() && (p.0 < cursor
            ==> around(s, cursor) is Some),
{
    crate::placeholder::law_placeholders_are_disjoint(s);
    if let Some(p) = around(s, cursor) {
        let i = choose|i: int| 0 <= i < spans(s).len() && spans(s)[i] == p;
        assert(spans(s)[i].1 <= s.len());
    }
    if let Some(p) = left_of(s, cursor) {
        let i = choose|i: int| 0 <= i < spans(s).len() && spans(s)[i] == p;
        assert(spans(s)[i].1 <= s.len());
    }
    if let Some(p) = right_of(s, cursor) {
        let i = choose|i: int| 0 <= i < spans(s).len() && spans(s)[i] == p;
        assert(spans(s)[i].1 <= s.len());
        assert(spans(s).contains(p));
    }
}

proof fn lemma_vertical_inside(v: EditorState, up: bool, width: int)
    requires
        v.cursor_inside(),
        v.input.len() > 0,
    ensures
        0 <= vertical(v, up, width) <= v.input.len(),
{
    crate::layout::lemma_vertical_move_exists(v.input, width, v.cursor, up);
}

/// A key without modifiers.
pub open spec fn plain(code: KeyCode) -> Event {
    Event::Key { code, modifiers: KeyModifiers { control: false, shift: false }, release: false }
}

/// A letter with Control held.
pub open spec fn control(ch: char) -> Event {
    Event::Key {
        code: KeyCode::Char(ch),
        modifiers: KeyModifiers { control: true, shift: false },
        release: false,
    }
}

/// The editor behind so many presses of a key.
pub open spec fn pressed(
    v: EditorState,
    lang: Lang,
    code: KeyCode,
    times: nat,
    now: int,
    width: int,
    allow_interrupt: bool,
) -> EditorState
    decreases times,
{
    if times == 0 {
        v
    } else {
        let before = pressed(v, lang, code, (times - 1) as nat, now, width, allow_interrupt);
        on_live_event(before, lang, plain(code), now, width, allow_interrupt).0
    }
}

/// From an empty line, so many presses of Up show the entry so many from the end
/// of the history, with the cursor behind it; more than there are entries stay on
/// the first. A Down behind them shows the entry that the last Up came from, and
/// behind a single one the empty line again. (An entry without text would look
/// like an empty line.)
pub proof fn law_up_walks_back_through_the_history(
    v: EditorState,
    lang: Lang,
    k: nat,
    now: int,
    width: int,
    allow_interrupt: bool,
)
    requires
        v.wf(),
        v.input.len() == 0,
        k >= 1,
        v.history.len() > 0,
        forall|i: int| 0 <= i < v.history.len() ==> (#[trigger] v.history[i]).len() > 0,
    ensures
        ({
            let up = pressed(v, lang, KeyCode::Up, k, now, width, allow_interrupt);
            let down = on_live_event(up, lang, plain(KeyCode::Down), now, width, allow_interrupt).0;
            &&& up.history == v.history
            &&& k <= v.history.len() ==> up.input == v.history[v.history.len() - k]
            &&& k > v.history.len() ==> up.input == v.history[0]
            &&& up.cursor == up.input.len()
            &&& k == 1 ==> down.input.len() == 0
            &&& 2 <= k <= v.history.len() ==> down.input == v.history[v.history.len() - k + 1]
            &&& down.cursor == down.input.len()
            &&& up.mode == v.mode
        }),
{
    lemma_up_walks(v, lang, k, now, width, allow_interrupt);
}

proof fn lemma_up_walks(
    v: EditorState,
    lang: Lang,
    k: nat,
    now: int,
    width: int,
    allow_interrupt: bool,
)
    requires
        v.wf(),
        v.input.len() == 0,
        k >= 1,
        v.history.len() > 0,
        forall|i: int| 0 <= i < v.history.len() ==> (#[trigger] v.history[i]).len() > 0,
    ensures
        ({
            let up = pressed(v, lang, KeyCode::Up, k, now, width, allow_interrupt);
            let i = if k <= v.history.len() {
                v.history.len() - k
            } else {
                0
            };
            &&& up.history == v.history
            &&& up.history_index == i
            &&& up.clean == Some(i)
            &&& up.input == v.history[i]
            &&& up.cursor == up.input.len()
            &&& up.mode == v.mode
        }),
    decreases k,
{
    if k == 1 {
        reveal_with_fuel(pressed, 2);
        assert(pressed(v, lang, KeyCode::Up, 0, now, width, allow_interrupt) == v);
    } else {
        lemma_up_walks(v, lang, (k - 1) as nat, now, width, allow_interrupt);
        let before = pressed(v, lang, KeyCode::Up, (k - 1) as nat, now, width, allow_interrupt);
        assert(before.input.len() > 0);
    }
}

/// One press of Up or Down while an entry of the history is shown untouched: the
/// entry before it or behind it. A line that was edited is never replaced.
pub proof fn law_history_keys_step_by_one(
    editor: &mut LiveReplEditor,
    lang: Lang,
    up: bool,
    now: u64,
    size: Option<(u16, u16)>,
    allow_interrupt: bool,
    action: LiveEditorAction,
    i: int,
)
    requires
        call_ensures(
            LiveReplEditor::handle_event,
            (
                editor,
                lang,
                plain(
                    if up {
                        KeyCode::Up
                    } else {
                        KeyCode::Down
                    },
                ),
                now,
                size,
                allow_interrupt,
            ),
            action,
        ),
        0 <= i < old(editor)@.history.len(),
        old(editor)@.history_index == i,
        old(editor)@.clean == Some(i),
    ensures
        action is Redraw,
        final(editor)@.history == old(editor)@.history,
        old(editor)@.input == old(editor)@.history[i] && old(editor)@.input.len() > 0 ==> {
            &&& up && i > 0 ==> final(editor)@.input == old(editor)@.history[i - 1]
            &&& up && i == 0 ==> final(editor)@.input == old(editor)@.history[0]
            &&& !up && i + 1 < old(editor)@.history.len() ==> final(editor)@.input
                == old(editor)@.history[i + 1]
            &&& !up && i + 1 == old(editor)@.history.len() ==> final(editor)@.input.len() == 0
        },
        old(editor)@.input != old(editor)@.history[i] && old(editor)@.input.len() > 0
            ==> final(editor)@.input == old(editor)@.input,
{
}

/// The keys that move the cursor leave the line alone: by one character where no
/// placeholder is in the way, over a whole placeholder where the cursor is inside
/// of it, and to either end.
pub proof fn law_cursor_keys_only_move(
    editor: &mut LiveReplEditor,
    lang: Lang,
    code: KeyCode,
    now: u64,
    size: Option<(u16, u16)>,
    allow_interrupt: bool,
    action: LiveEditorAction,
)
    requires
        code is Left || code is Right || code is Home || code is End,
        call_ensures(
            LiveReplEditor::handle_event,
            (editor, lang, plain(code), now, size, allow_interrupt),
            action,
        ),
        old(editor)@.cursor_inside(),
    ensures
        ({
            let before = old(editor)@;
            let after = final(editor)@;
            &&& action is Redraw
            &&& after.input == before.input && after.history == before.history && after.images
                == before.images && after.pasted == before.pasted && after.mode == before.mode
            &&& code is Home ==> after.cursor == 0
            &&& code is End ==> after.cursor == before.input.len()
            &&& code is Left && around(before.input, before.cursor) is None && before.cursor > 0
                ==> after.cursor == before.cursor - 1
            &&& code is Left && before.cursor == 0 ==> after.cursor == 0
            &&& code is Right && around(before.input, before.cursor) is None && before.cursor
                < before.input.len() ==> after.cursor == before.cursor + 1
            &&& code is Right && before.cursor == before.input.len() ==> after.cursor
                == before.cursor
            &&& forall|p: (int, int)|
                #[trigger] spans(before.input).contains(p) && p.0 < before.cursor < p.1 ==> {
                    &&& code is Left ==> after.cursor == p.0
                    &&& code is Right ==> after.cursor == p.1
                }
        }),
{
    let before = old(editor)@;
    lemma_found_inside(before.input, before.cursor);
    assert forall|p: (int, int)| #[trigger]
        spans(before.input).contains(p) && p.0 < before.cursor < p.1 implies {
        &&& code is Left ==> final(editor)@.cursor == p.0
        &&& code is Right ==> final(editor)@.cursor == p.1
    } by {
        let q = around(before.input, before.cursor)->0;
        lemma_unique(before.input, before.cursor, p, q);
    }
}

/// A typed character stands where the cursor was, with the cursor behind it and
/// everything else as before; Ctrl+J does the same with a line break. Control
/// characters are not typed.
pub proof fn law_typing_puts_the_character_at_the_cursor(
    editor: &mut LiveReplEditor,
    lang: Lang,
    ch: char,
    now: u64,
    size: Option<(u16, u16)>,
    allow_interrupt: bool,
    action: LiveEditorAction,
)
    requires
        call_ensures(
            LiveReplEditor::handle_event,
            (editor, lang, plain(KeyCode::Char(ch)), now, size, allow_interrupt),
            action,
        ),
        old(editor)@.cursor_inside(),
        around(old(editor)@.input, old(editor)@.cursor) is None,
    ensures
        ({
            let before = old(editor)@;
            let after = final(editor)@;
            let at = before.cursor;
            &&& action is Redraw
            &&& !disallowed(ch) ==> {
                &&& after.input.len() == before.input.len() + 1
                &&& after.input[at] == ch
                &&& after.input.take(at) == before.input.take(at)
                &&& after.input.skip(at + 1) == before.input.skip(at)
                &&& after.cursor == at + 1
            }
            &&& disallowed(ch) ==> after.input == before.input && after.cursor == at
            &&& after.history == before.history && after.images == before.images && after.pasted
                == before.pasted && after.mode == before.mode
        }),
{
    let before = old(editor)@;
    let after = final(editor)@;
    let at = before.cursor;
    if !disallowed(ch) {
        assert(after.input == before.input.take(at) + seq![ch] + before.input.skip(at));
        assert(after.input.take(at) =~= before.input.take(at));
        assert(after.input.skip(at + 1) =~= before.input.skip(at));
    }
}

/// A line break goes in at the cursor, by Shift+Enter and by Ctrl+J alike.
pub proof fn law_line_breaks_go_in_at_the_cursor(
    v: EditorState,
    lang: Lang,
    now: int,
    width: int,
    allow_interrupt: bool,
)
    requires
        v.cursor_inside(),
    ensures
        ({
            let shift = Event::Key {
                code: KeyCode::Enter,
                modifiers: KeyModifiers { control: false, shift: true },
                release: false,
            };
            let (a, done) = on_live_event(v, lang, shift, now, width, allow_interrupt);
            let (b, also) = on_live_event(v, lang, control('j'), now, width, allow_interrupt);
            &&& a == b
            &&& done is Redraw && also is Redraw
            &&& a.input.len() == v.input.len() + 1
            &&& a.input[v.cursor] == '\n'
            &&& a.input.take(v.cursor) == v.input.take(v.cursor)
            &&& a.input.skip(v.cursor + 1) == v.input.skip(v.cursor)
            &&& a.cursor == v.cursor + 1
        }),
{
    let at = v.cursor;
    let a = after_newline(v.disarmed());
    assert(a.input == v.input.take(at) + seq!['\n'] + v.input.skip(at));
    assert(a.input.take(at) =~= v.input.take(at));
    assert(a.input.skip(at + 1) =~= v.input.skip(at));
}

/// Backspace takes the character before the cursor and Delete the one behind it,
/// and no other; at the ends of the line they take nothing. A placeholder goes as
/// a whole.
pub proof fn law_deleting_takes_one_character(
    editor: &mut LiveReplEditor,
    lang: Lang,
    code: KeyCode,
    now: u64,
    size: Option<(u16, u16)>,
    allow_interrupt: bool,
    action: LiveEditorAction,
)
    requires
        code is Backspace || code is Delete,
        call_ensures(
            LiveReplEditor::handle_event,
            (editor, lang, plain(code), now, size, allow_interrupt),
            action,
        ),
        old(editor)@.cursor_inside(),
    ensures
        ({
            let before = old(editor)@;
            let after = final(editor)@;
            let at = before.cursor;
            &&& action is Redraw
            &&& code is Backspace && at > 0 && left_of(before.input, at) is None ==> after.input
                == before.input.remove(at - 1) && after.cursor == at - 1
            &&& code is Backspace && at == 0 ==> after.input == before.input && after.cursor == 0
            &&& code is Delete && at < before.input.len() && right_of(before.input, at) is None
                ==> after.input == before.input.remove(at) && after.cursor == at
            &&& code is Delete && at == before.input.len() && right_of(before.input, at) is None
                ==> after.input == before.input && after.cursor == at
            &&& code is Backspace && at > 0 ==> (left_of(before.input, at) matches Some(p)
                ==> after.input == before.input.take(p.0) + before.input.skip(p.1) && after.cursor
                == p.0)
            &&& code is Delete ==> (right_of(before.input, at) matches Some(p) ==> after.input
                == before.input.take(p.0) + before.input.skip(p.1))
            &&& after.history == before.history && after.mode == before.mode
        }),
{
    let before = old(editor)@;
    let after = final(editor)@;
    let at = before.cursor;
    lemma_found_inside(before.input, at);
    if code is Backspace && at > 0 && left_of(before.input, at) is None {
        assert(after.input == before.input.take(at - 1) + before.input.skip(at));
        assert(after.input =~= before.input.remove(at - 1));
    }
    if code is Delete && right_of(before.input, at) is None {
        if at < before.input.len() {
            assert(after.input == before.input.take(at) + before.input.skip(at + 1));
            assert(after.input =~= before.input.remove(at));
        } else {
            assert(after.input =~= before.input);
        }
    }
}

/// Ctrl+W takes the word before the cursor with the white space behind it: what
/// goes holds no white space before the end of the word, and what stays to the
/// left is empty or ends in white space.
pub proof fn law_deleting_a_word(
    v: EditorState,
    lang: Lang,
    now: int,
    width: int,
    allow_interrupt: bool,
)
    requires
        v.cursor_inside(),
        left_of(v.input, v.cursor) is None,
    ensures
        ({
            let (after, done) = on_live_event(v, lang, control('w'), now, width, allow_interrupt);
            &&& done is Redraw
            &&& 0 <= after.cursor <= v.cursor
            &&& after.input == v.input.take(after.cursor) + v.input.skip(v.cursor)
            &&& after.cursor == 0 || is_white_space(v.input[after.cursor - 1])
            &&& v.cursor > 0 && !is_white_space(v.input[v.cursor - 1]) ==> after.cursor < v.cursor
                && (forall|i: int|
                after.cursor <= i < v.cursor ==> !is_white_space(#[trigger] v.input[i]))
        }),
{
    let s = v.input.take(v.cursor);
    crate::edit::lemma_word_start(v.input, v.cursor);
    lemma_trim_right_prefix(s);
    let t = trim_right(s);
    lemma_last_run(t);
    let start = word_start(v.input, v.cursor);
    assert(without_last_run(t) == t.take(start));
    if start > 0 {
        assert(t[start - 1] == v.input[start - 1]);
    }
    if v.cursor > 0 && !is_white_space(v.input[v.cursor - 1]) {
        assert(s.last() == v.input[v.cursor - 1]);
        assert(t == s);
        assert forall|i: int| start <= i < v.cursor implies !is_white_space(#[trigger] v.input[i]) by {
            assert(t[i] == v.input[i]);
        }
    }
}

proof fn lemma_trim_right_prefix(s: Seq<char>)
    ensures
        trim_right(s).len() <= s.len(),
        trim_right(s) == s.take(trim_right(s).len() as int),
    decreases s.len(),
{
    if s.len() > 0 && is_white_space(s.last()) {
        lemma_trim_right_prefix(s.drop_last());
        let n = trim_right(s).len() as int;
        assert(s.drop_last().take(n) =~= s.take(n));
    } else {
        assert(s.take(s.len() as int) =~= s);
    }
}

proof fn lemma_last_run(s: Seq<char>)
    ensures
        without_last_run(s).len() <= s.len(),
        without_last_run(s) == s.take(without_last_run(s).len() as int),
        without_last_run(s).len() == 0 || is_white_space(s[without_last_run(s).len() - 1]),
        forall|i: int|
            without_last_run(s).len() <= i < s.len() ==> !is_white_space(#[trigger] s[i]),
    decreases s.len(),
{
    if s.len() > 0 && !is_white_space(s.last()) {
        let front = s.drop_last();
        lemma_last_run(front);
        let n = without_last_run(s).len() as int;
        assert(front.take(n) =~= s.take(n));
        assert forall|i: int| n <= i < s.len() implies !is_white_space(#[trigger] s[i]) by {
            if i < front.len() {
                assert(front[i] == s[i]);
            }
        }
    } else {
        assert(s.take(s.len() as int) =~= s);
    }
}

/// Enter hands the line out and leaves an empty one; a line of nothing but white
/// space stays as it is and is reported as empty. What is handed out is the line,
/// with its pastes unfolded, and its pictures.
pub proof fn law_enter_hands_the_line_out(
    editor: &mut LiveReplEditor,
    lang: Lang,
    now: u64,
    size: Option<(u16, u16)>,
    allow_interrupt: bool,
    action: LiveEditorAction,
)
    requires
        call_ensures(
            LiveReplEditor::handle_event,
            (editor, lang, plain(KeyCode::Enter), now, size, allow_interrupt),
            action,
        ),
    ensures
        ({
            let before = old(editor)@;
            let after = final(editor)@;
            let content = trimmed(expanded(stripped(before.input), before.pasted));
            &&& content.len() == 0 ==> action is EmptySubmit && after.input == before.input
                && after.cursor == before.cursor && after.images == before.images && after.pasted
                == before.pasted
            &&& content.len() > 0 ==> {
                &&& action is Submit
                &&& action->Submit_0.content@ == content
                &&& action->Submit_0.display_content@ == trimmed(stripped(before.input))
                &&& action->Submit_0.images@ == before.images
                &&& after.input.len() == 0 && after.cursor == 0 && after.images.len() == 0
                    && after.pasted.len() == 0
            }
            &&& after.history == before.history && after.mode == before.mode
        }),
{
}

/// The keys with Control: C clears a draft and interrupts on an empty line, D
/// leaves on an empty line alone, L clears the screen, V asks for the clipboard.
/// A key that is let go does nothing.
pub proof fn law_control_keys(
    editor: &mut LiveReplEditor,
    lang: Lang,
    ch: char,
    now: u64,
    size: Option<(u16, u16)>,
    allow_interrupt: bool,
    action: LiveEditorAction,
)
    requires
        call_ensures(
            LiveReplEditor::handle_event,
            (editor, lang, control(ch), now, size, allow_interrupt),
            action,
        ),
    ensures
        ({
            let before = old(editor)@;
            let after = final(editor)@;
            &&& ch == 'c' && before.input.len() > 0 ==> action is Redraw && after.input.len() == 0
                && after.cursor == 0 && after.pasted.len() == 0 && after.images.len() == 0
            &&& ch == 'c' && before.input.len() == 0 ==> action is Interrupt
            &&& ch == 'd' && before.input.len() == 0 ==> action is Exit
            &&& ch == 'l' ==> action is ClearScreen && after.input == before.input
            &&& ch == 'v' ==> action is ReadClipboard && after.input == before.input
            &&& before.input.len() > 0 ==> !(action is Exit || action is Interrupt)
            &&& !(action is Submit || action is EmptySubmit)
        }),
{
}

/// Tab goes to the next mode of the three and leaves the line alone, unless the
/// line starts with a slash: then the mode stays and the only command that the
/// line can still become is filled in.
pub proof fn law_tab_switches_or_completes(
    editor: &mut LiveReplEditor,
    lang: Lang,
    now: u64,
    size: Option<(u16, u16)>,
    allow_interrupt: bool,
    action: LiveEditorAction,
)
    requires
        call_ensures(
            LiveReplEditor::handle_event,
            (editor, lang, plain(KeyCode::Tab), now, size, allow_interrupt),
            action,
        ),
    ensures
        ({
            let before = old(editor)@;
            let after = final(editor)@;
            let slash = before.input.len() > 0 && before.input[0] == '/';
            &&& action is Redraw
            &&& !slash ==> after.input == before.input && after.cursor == before.cursor && (
            before.mode is Normal ==> after.mode is Plan) && (before.mode is Plan ==> after.mode
                is Chat) && (before.mode is Chat ==> after.mode is Normal)
            &&& slash ==> after.mode == before.mode && match completion(before.input) {
                Some(c) => after.input == command_name(c) && after.cursor == after.input.len(),
                None => after.input == before.input && after.cursor == before.cursor,
            }
            &&& after.history == before.history
        }),
{
    reveal_strlit("/");
    let before = old(editor)@;
    if before.input.len() > 0 {
        assert(before.input.take(1) =~= seq![before.input[0]]);
        assert("/"@ =~= seq!['/']);
        assert(seq![before.input[0]][0] == before.input[0]);
        assert("/"@[0] == '/');
        assert(begins_with(before.input, "/"@) <==> before.input[0] == '/');
    } else {
        assert(!begins_with(before.input, "/"@));
    }
}

/// What the terminal reports beside keys: the focus is kept, a new size redraws,
/// and a key that is let go does nothing.
pub proof fn law_other_reports(
    editor: &mut LiveReplEditor,
    lang: Lang,
    event: Event,
    now: u64,
    size: Option<(u16, u16)>,
    allow_interrupt: bool,
    action: LiveEditorAction,
)
    requires
        call_ensures(
            LiveReplEditor::handle_event,
            (editor, lang, event, now, size, allow_interrupt),
            action,
        ),
    ensures
        event is FocusGained ==> final(editor)@.focused && action is Idle,
        event is FocusLost ==> !final(editor)@.focused && action is Idle,
        event is Resize ==> action is Redraw,
        event matches Event::Key { release: true, .. } ==> action is Idle,
        (event matches Event::Key { release: true, .. }) || event is FocusGained || event
            is FocusLost || event is Resize || event is Other ==> final(editor)@.input == old(
            editor,
        )@.input && final(editor)@.cursor == old(editor)@.cursor,
        !(event is FocusGained || event is FocusLost) ==> final(editor)@.focused == old(
            editor,
        )@.focused,
{
}

/// A pasted text that is short goes in as it is, freed of control sequences; a
/// long one is kept aside and a placeholder goes in for it. Either way the cursor
/// stands behind what went in.
pub proof fn law_pastes_go_in_at_the_cursor(
    editor: &mut LiveReplEditor,
    lang: Lang,
    text: String,
    now: u64,
    size: Option<(u16, u16)>,
    allow_interrupt: bool,
    action: LiveEditorAction,
)
    requires
        call_ensures(
            LiveReplEditor::handle_event,
            (editor, lang, Event::Paste(text), now, size, allow_interrupt),
            action,
        ),
        old(editor)@.cursor_inside(),
    ensures
        ({
            let before = old(editor)@;
            let after = final(editor)@;
            let at = before.cursor;
            let put = after.cursor - at;
            &&& action is Redraw
            &&& put >= 0
            &&& after.input.len() == before.input.len() + put
            &&& after.input.take(at) == before.input.take(at)
            &&& after.input.skip(after.cursor) == before.input.skip(at)
            &&& !is_long_paste(stripped(text@)) ==> after.input.subrange(at, after.cursor)
                == stripped(text@) && after.pasted == before.pasted
            &&& is_long_paste(stripped(text@)) ==> after.pasted == before.pasted.push(
                Some(stripped(text@)),
            )
            &&& after.images == before.images && after.history == before.history && after.mode
                == before.mode
        }),
{
    let before = old(editor)@;
    let after = final(editor)@;
    let at = before.cursor;
    let put = paste_insertion(lang, text@, before.pasted.len() + 1);
    assert(after.input == before.input.take(at) + put + before.input.skip(at));
    assert(after.input.take(at) =~= before.input.take(at));
    assert(after.input.skip(after.cursor) =~= before.input.skip(at));
    assert(after.input.subrange(at, after.cursor) =~= put);
}

/// A picture from the clipboard is kept behind those before it, and its
/// placeholder with its number goes in at the cursor; a path goes in as text.
pub proof fn law_clipboard_goes_in_at_the_cursor(
    editor: &mut LiveReplEditor,
    lang: Lang,
    content: ClipboardContent,
)
    requires
        call_ensures(LiveReplEditor::paste_clipboard, (editor, lang, content), ()),
        old(editor)@.cursor_inside(),
    ensures
        ({
            let before = old(editor)@;
            let after = final(editor)@;
            let put = after.input.subrange(before.cursor, after.cursor);
            &&& after.input.take(before.cursor) == before.input.take(before.cursor)
            &&& after.input.skip(after.cursor) == before.input.skip(before.cursor)
            &&& content is Image ==> after.images == before.images.push(
                Some(
                    PastedImage::Binary {
                        mime: content->Image_mime,
                        data: content->Image_data,
                    },
                ),
            ) && after.pasted == before.pasted
            &&& content is ImagePath ==> after.images == before.images.push(
                Some(PastedImage::Path(content->ImagePath_path)),
            ) && after.pasted == before.pasted
            &&& content matches ClipboardContent::Image { filename: Some(name), .. } ==> put
                == "[Image "@ + decimal(before.images.len() + 1) + ": "@ + name@ + "]"@
            &&& content matches ClipboardContent::Image { filename: None, .. } ==> put == "[Image "@
                + decimal(before.images.len() + 1) + "]"@
            &&& content matches ClipboardContent::ImagePath { filename: Some(name), .. } ==> put
                == "[Image "@ + decimal(before.images.len() + 1) + ": "@ + name@ + "]"@
            &&& content matches ClipboardContent::ImagePath { filename: None, .. } ==> put
                == "[Image "@ + decimal(before.images.len() + 1) + ": "@ + "image"@ + "]"@
            &&& content matches ClipboardContent::TextPath(path) ==> put == path@ && after.images
                == before.images
            &&& content is Nothing ==> after.input == before.input && after.cursor == before.cursor
            &&& !(content is Image || content is ImagePath) ==> after.images == before.images
        }),
{
    let before = old(editor)@;
    let after = final(editor)@;
    let at = before.cursor;
    let put = clipboard_insertion(before, lang, content);
    if content is Nothing {
        assert(after.input == before.input && after.cursor == at);
    } else {
        assert(after.input == before.input.take(at) + put + before.input.skip(at));
        assert(after.input.take(at) =~= before.input.take(at));
        assert(after.input.skip(after.cursor) =~= before.input.skip(at));
        assert(after.input.subrange(at, after.cursor) =~= put);
    }
}

/// A line that is recorded is the one that Up shows first.
pub proof fn law_recorded_line_is_the_last(
    editor: &mut LiveReplEditor,
    content: &str,
    lang: Lang,
    now: int,
    width: int,
    allow_interrupt: bool,
)
    requires
        call_ensures(LiveReplEditor::record_history, (editor, content), ()),
        old(editor)@.input.len() == 0,
    ensures
        final(editor)@.history.drop_last() == old(editor)@.history,
        final(editor)@.history.last() == content@,
        on_live_event(
            final(editor)@,
            lang,
            plain(KeyCode::Up),
            now,
            width,
            allow_interrupt,
        ).0.input == content@,
{
    assert(final(editor)@.history.drop_last() =~= old(editor)@.history);
}

/// The plain prompt edits as the live one does: the keys that edit leave the same
/// line behind.
pub proof fn law_both_prompts_edit_alike(
    v: EditorState,
    lang: Lang,
    code: KeyCode,
    modifiers: KeyModifiers,
    now: int,
    width: int,
    allow_interrupt: bool,
)
    requires
        v.armed_until is None,
        code is Left || code is Right || code is Home || code is End || code is Up || code is Down
            || code is Backspace || code is Delete || (code is Char && !modifiers.control),
    ensures
        ({
            let event = Event::Key { code, modifiers, release: false };
            let live = on_live_event(v, lang, event, now, width, allow_interrupt);
            let plain = on_prompt_event(v, lang, event, width);
            live.0 == plain.0 && live.1 is Redraw && plain.1 is Render
        }),
{
}

/// At the plain prompt Enter hands out the line with its pastes unfolded, Ctrl+C
/// clears a draft and leaves on an empty line, and Ctrl+D leaves on an empty line
/// alone.
pub proof fn law_plain_prompt_ends(
    editor: &mut LiveReplEditor,
    lang: Lang,
    event: Event,
    size: Option<(u16, u16)>,
    action: PromptAction,
)
    requires
        call_ensures(LiveReplEditor::read_repl_input, (editor, lang, event, size), action),
    ensures
        ({
            let before = old(editor)@;
            let after = final(editor)@;
            &&& event == plain(KeyCode::Enter) ==> action is Submit && action->content@ == expanded(
                stripped(before.input),
                before.pasted,
            ) && action->echo@ == stripped(before.input) && action->Submit_images@ == before.images
            &&& event == control('c') && before.input.len() > 0 ==> action is Render
                && after.input.len() == 0
            &&& event == control('c') && before.input.len() == 0 ==> action is Cancel
            &&& event == control('d') && before.input.len() == 0 ==> action is Cancel
            &&& event == control('d') && before.input.len() > 0 ==> !(action is Cancel)
            &&& event == plain(KeyCode::Esc) ==> after.input == before.input && !(action is Cancel)
            &&& event == control('l') ==> action is ClearScreen
            &&& event == control('v') ==> action is ReadClipboard
            &&& action is Submit ==> (event matches Event::Key { code: KeyCode::Enter, .. })
        }),
{
}

/// A new editor has an empty line and stands behind its history; one for the
/// plain prompt starts with what it is given.
pub proof fn law_editors_start_with_their_line(
    mode: AgentMode,
    prefill: &str,
    history: Vec<String>,
    live: LiveReplEditor,
    prompt: LiveReplEditor,
)
    requires
        call_ensures(LiveReplEditor::new, (mode, history), live),
        call_ensures(LiveReplEditor::for_prompt, (mode, prefill, history), prompt),
    ensures
        live.input@.len() == 0 && live.cursor == 0,
        prompt.input@ == stripped(prefill@) && prompt.cursor == prompt.input@.len(),
        live.mode == mode && prompt.mode == mode,
        texts(live.history@) == texts(history@) && texts(prompt.history@) == texts(history@),
        live.history_index == history@.len() && prompt.history_index == history@.len(),
        live.pasted_images@.len() == 0 && prompt.pasted_images@.len() == 0,
        live.escape_armed_until is None && prompt.escape_armed_until is None,
{
    assert(texts(history@).len() == history@.len());
    assert(pasted_views(live.pasted_texts@).len() == live.pasted_texts@.len());
    assert(live@.input == live.input@);
    assert(prompt@.input == prompt.input@);
}

} // verus!
