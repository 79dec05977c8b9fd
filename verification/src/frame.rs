//! Where the cursor stands after a frame of terminal output: the frame's bytes
//! are parsed into actions and replayed on a small model of the screen.
use crate::layout::{at_least_one, capped, not_negative};
use crate::text::texts;
use crate::width::flat;
use unicode_segmentation::UnicodeSegmentation;
use vstd::prelude::*;
use vstd::string::*;

verus! {

/// What the parser of the `vte` crate reports about a stream of bytes.
#[derive(Clone, Copy, Debug, PartialEq, Eq, Structural)]
pub enum TerminalAction {
    Print(char),
    Execute(u8),
    /// A control sequence with the leading values of its first two parameters.
    Csi { first: Option<u16>, second: Option<u16>, ignore: bool, action: char },
    Esc { ignore: bool, byte: u8 },
}

/// The parameters of a control sequence, as the `vte` crate holds them.
#[verifier::external_type_specification]
#[verifier::external_body]
pub struct ExParams(vte::Params);

/// The values that a list of parameters holds, each with its subparameters.
pub uninterp spec fn param_values(params: vte::Params) -> Seq<Seq<u16>>;

pub open spec fn leading_of(values: Seq<Seq<u16>>, index: int) -> Option<u16> {
    if 0 <= index < values.len() && values[index].len() > 0 {
        Some(values[index][0])
    } else {
        None
    }
}

/// `vte::Params::iter` goes through the parameters in order, each as the slice
/// of its subparameters: the first value of the parameter `index`, if it has
/// one.
#[verifier::external_body]
fn leading_value(params: &vte::Params, index: usize) -> (r: Option<u16>)
    ensures
        r == leading_of(param_values(*params), index as int),
{
    params.iter().nth(index).and_then(|values| values.first()).copied()
}

/// Writes down what the parser reports.
pub struct ActionRecorder {
    pub actions: Vec<TerminalAction>,
}

impl vte::Perform for ActionRecorder {
    fn print(&mut self, c: char)
        ensures
            final(self).actions@ == old(self).actions@.push(TerminalAction::Print(c)),
    {
        self.actions.push(TerminalAction::Print(c));
    }

    fn execute(&mut self, byte: u8)
        ensures
            final(self).actions@ == old(self).actions@.push(TerminalAction::Execute(byte)),
    {
        self.actions.push(TerminalAction::Execute(byte));
    }

    fn csi_dispatch(&mut self, params: &vte::Params, intermediates: &[u8], ignore: bool, action: char)
        ensures
            final(self).actions@ == old(self).actions@.push(
                TerminalAction::Csi {
                    first: leading_of(param_values(*params), 0),
                    second: leading_of(param_values(*params), 1),
                    ignore,
                    action,
                },
            ),
    {
        let first = leading_value(params, 0);
        let second = leading_value(params, 1);
        self.actions.push(TerminalAction::Csi { first, second, ignore, action });
    }

    fn esc_dispatch(&mut self, intermediates: &[u8], ignore: bool, byte: u8)
        ensures
            final(self).actions@ == old(self).actions@.push(TerminalAction::Esc { ignore, byte }),
    {
        self.actions.push(TerminalAction::Esc { ignore, byte });
    }
}

/// The actions that the parser reports for the bytes of a frame.
pub uninterp spec fn frame_actions(frame: Seq<u8>) -> Seq<TerminalAction>;

/// `vte::Parser::advance`, on a new parser and a recorder: the characters,
/// control bytes, control sequences and escapes that it reports for the bytes,
/// in order. Which bytes make up which is the parser's to say.
#[verifier::external_body]
fn parse_frame(frame: &[u8]) -> (r: Vec<TerminalAction>)
    ensures
        r@ == frame_actions(frame@),
{
    let mut recorder = ActionRecorder { actions: Vec::new() };
    vte::Parser::new().advance(&mut recorder, frame);
    recorder.actions
}

/// The extended grapheme clusters of a text.
pub uninterp spec fn grapheme_clusters(text: Seq<char>) -> Seq<Seq<char>>;

/// `UnicodeSegmentation::graphemes` of the `unicode-segmentation` crate, with
/// extended clusters: the user-perceived characters of the text, in order. They
/// make up the whole text, and none is empty.
#[verifier::external_body]
fn graphemes(text: &str) -> (r: Vec<String>)
    ensures
        texts(r@) == grapheme_clusters(text@),
        flat(texts(r@)) == text@,
        forall|i: int| 0 <= i < r@.len() ==> (#[trigger] r@[i])@.len() > 0,
{
    text.graphemes(true).map(|cluster| cluster.to_string()).collect()
}

/// The columns of a grapheme cluster on the screen.
pub uninterp spec fn cluster_columns(cluster: Seq<char>) -> usize;

/// `UnicodeWidthStr::width` of the `unicode-width` crate: the columns that the
/// text takes, by the Unicode tables of widths.
#[verifier::external_body]
fn cluster_width(cluster: &str) -> (r: usize)
    ensures
        r == cluster_columns(cluster@),
{
    unicode_width::UnicodeWidthStr::width(cluster)
}

#[derive(Clone, Copy, Debug, PartialEq, Eq)]
pub struct TerminalFrameLayout {
    pub cursor: (u16, u16),
    pub occupied_bottom: Option<u16>,
}

#[derive(Debug)]
pub struct TerminalFrameTracker {
    pub columns: usize,
    pub bottom_margin: Option<usize>,
    pub cursor_col: usize,
    pub cursor_row: usize,
    pub saved_cursor: (usize, usize, bool),
    pub pending_wrap: bool,
    pub pending_text: String,
    pub occupied_bottom: Option<usize>,
}

/// The model of the screen.
pub struct Screen {
    pub columns: int,
    pub bottom: Option<int>,
    pub col: int,
    pub row: int,
    pub saved: (int, int, bool),
    /// The last column is written and the next character starts a new row.
    pub wrap: bool,
    /// Characters that are printed but not yet placed.
    pub text: Seq<char>,
    pub occupied: Option<int>,
}

pub open spec fn opt_int(o: Option<usize>) -> Option<int> {
    match o {
        Some(n) => Some(n as int),
        None => None,
    }
}

impl View for TerminalFrameTracker {
    type V = Screen;

    open spec fn view(&self) -> Screen {
        Screen {
            columns: self.columns as int,
            bottom: opt_int(self.bottom_margin),
            col: self.cursor_col as int,
            row: self.cursor_row as int,
            saved: (
                self.saved_cursor.0 as int,
                self.saved_cursor.1 as int,
                self.saved_cursor.2,
            ),
            wrap: self.pending_wrap,
            text: self.pending_text@,
            occupied: opt_int(self.occupied_bottom),
        }
    }
}

pub open spec fn row_limit(n: int) -> int {
    capped(n, usize::MAX as int)
}

impl Screen {
    /// The cursor and the saved cursor stand on a column of the screen.
    pub open spec fn wf(self) -> bool {
        &&& 1 <= self.columns <= 65535
        &&& 0 <= self.col < self.columns
        &&& 0 <= self.saved.0 < self.columns
        &&& 0 <= self.row
        &&& 0 <= self.saved.1
    }

    /// The row under the bottom margin is never entered.
    pub open spec fn within_margin(self) -> bool {
        self.bottom matches Some(bottom) ==> self.row <= bottom && self.saved.1 <= bottom && (
        self.occupied matches Some(row) ==> row <= bottom)
    }

    pub open spec fn clamp_row(self, row: int) -> int {
        match self.bottom {
            Some(bottom) => capped(row, bottom),
            None => row,
        }
    }

    /// The cursor one row further down; on the bottom margin the region
    /// scrolls instead.
    pub open spec fn indexed(self) -> Screen {
        if self.bottom matches Some(bottom) && self.row >= bottom {
            self
        } else {
            Screen { row: row_limit(self.row + 1), ..self }
        }
    }

    pub open spec fn without_wrap(self) -> Screen {
        Screen { wrap: false, ..self }
    }

    pub open spec fn at_col(self, col: int) -> Screen {
        Screen { wrap: false, col: capped(col, self.columns - 1), ..self }
    }

    pub open spec fn at_row(self, row: int) -> Screen {
        Screen { wrap: false, row: self.clamp_row(row), ..self }
    }

    pub open spec fn moved_down(self, count: int) -> Screen {
        self.at_row(row_limit(self.row + count))
    }

    pub open spec fn moved_up(self, count: int) -> Screen {
        Screen { wrap: false, row: not_negative(self.row - count), ..self }
    }

    pub open spec fn moved_right(self, count: int) -> Screen {
        self.at_col(self.col + count)
    }

    pub open spec fn moved_left(self, count: int) -> Screen {
        Screen { wrap: false, col: not_negative(self.col - count), ..self }
    }

    pub open spec fn saving(self) -> Screen {
        Screen { saved: (self.col, self.row, self.wrap), ..self }
    }

    pub open spec fn restored(self) -> Screen {
        Screen { col: self.saved.0, row: self.saved.1, wrap: self.saved.2, ..self }
    }

    /// One cluster of `width` columns, on the next row where it does not fit.
    pub open spec fn printed(self, width: int) -> Screen {
        if width == 0 {
            self
        } else {
            let s = if self.wrap || self.col + width > self.columns {
                Screen { col: 0, ..self }.indexed().without_wrap()
            } else {
                self
            };
            let t = Screen {
                occupied: Some(
                    match s.occupied {
                        Some(row) if row > s.row => row,
                        _ => s.row,
                    },
                ),
                ..s
            };
            if t.col + width >= t.columns {
                Screen { col: t.columns - 1, wrap: true, ..t }
            } else {
                Screen { col: t.col + width, ..t }
            }
        }
    }

    /// The first `n` clusters, one after the other.
    pub open spec fn printed_all(self, clusters: Seq<Seq<char>>, n: int) -> Screen
        decreases n,
    {
        if n <= 0 {
            self
        } else {
            self.printed_all(clusters, n - 1).printed(cluster_columns(clusters[n - 1]) as int)
        }
    }

    /// The characters that wait are placed.
    pub open spec fn flushed(self) -> Screen {
        let clusters = grapheme_clusters(self.text);
        let start = Screen { text: Seq::empty(), ..self };
        if self.text.len() == 0 {
            self
        } else {
            start.printed_all(clusters, clusters.len() as int)
        }
    }

    /// A control byte.
    pub open spec fn executed(self, byte: u8) -> Screen {
        let s = self.flushed();
        if byte == 0x0a {
            Screen { col: 0, wrap: false, ..s }.indexed()
        } else if byte == 0x0d {
            s.at_col(0)
        } else if byte == 0x08 {
            s.moved_left(1)
        } else if byte == 0x09 {
            s.at_col((s.col / 8 + 1) * 8)
        } else if byte == 0x0b || byte == 0x0c {
            s.without_wrap().indexed()
        } else {
            s
        }
    }

    /// A control sequence.
    pub open spec fn controlled(
        self,
        first: Option<u16>,
        second: Option<u16>,
        ignore: bool,
        action: char,
    ) -> Screen {
        let s = self.flushed();
        let count = param_or(first, 1);
        if ignore {
            s
        } else if action == 'A' {
            s.moved_up(count)
        } else if action == 'B' || action == 'e' {
            s.moved_down(count)
        } else if action == 'C' || action == 'a' {
            s.moved_right(count)
        } else if action == 'D' {
            s.moved_left(count)
        } else if action == 'E' {
            s.moved_down(count).at_col(0)
        } else if action == 'F' {
            s.moved_up(count).at_col(0)
        } else if action == 'G' || action == '`' {
            s.at_col(count - 1)
        } else if action == 'H' || action == 'f' {
            s.at_row(count - 1).at_col(param_or(second, 1) - 1)
        } else if action == 'd' {
            s.at_row(count - 1)
        } else if action == 's' {
            s.saving()
        } else if action == 'u' {
            s.restored()
        } else {
            s
        }
    }

    /// An escape of one byte.
    pub open spec fn escaped(self, ignore: bool, byte: u8) -> Screen {
        let s = self.flushed();
        if ignore {
            s
        } else if byte == 0x37 {
            s.saving()
        } else if byte == 0x38 {
            s.restored()
        } else if byte == 0x44 {
            s.without_wrap().indexed()
        } else if byte == 0x45 {
            Screen { col: 0, wrap: false, ..s }.indexed()
        } else if byte == 0x4d {
            s.moved_up(1)
        } else {
            s
        }
    }

    pub open spec fn after(self, action: TerminalAction) -> Screen {
        match action {
            TerminalAction::Print(c) => Screen { text: self.text.push(c), ..self },
            TerminalAction::Execute(byte) => self.executed(byte),
            TerminalAction::Csi { first, second, ignore, action } => self.controlled(
                first,
                second,
                ignore,
                action,
            ),
            TerminalAction::Esc { ignore, byte } => self.escaped(ignore, byte),
        }
    }

    pub open spec fn after_all(self, actions: Seq<TerminalAction>, n: int) -> Screen
        decreases n,
    {
        if n <= 0 {
            self
        } else {
            self.after_all(actions, n - 1).after(actions[n - 1])
        }
    }
}

/// A parameter; a missing one and zero mean the default.
pub open spec fn param_or(value: Option<u16>, default: int) -> int {
    match value {
        Some(n) if n != 0 => n as int,
        _ => default,
    }
}

/// The screen before a frame that starts at `start`.
pub open spec fn screen_at(start: (u16, u16), columns: u16, bottom: Option<u16>) -> Screen {
    let columns = at_least_one(columns as int);
    let col = capped(start.0 as int, columns - 1);
    Screen {
        columns,
        bottom: match bottom {
            Some(n) => Some(n as int),
            None => None,
        },
        col,
        row: start.1 as int,
        saved: (col, start.1 as int, false),
        wrap: false,
        text: Seq::empty(),
        occupied: None,
    }
}

/// The screen after a frame, everything placed.
pub open spec fn screen_after(
    frame: Seq<u8>,
    start: (u16, u16),
    columns: u16,
    bottom: Option<u16>,
) -> Screen {
    let actions = frame_actions(frame);
    screen_at(start, columns, bottom).after_all(actions, actions.len() as int).flushed()
}

/// What is reported of a screen.
pub open spec fn layout_of(s: Screen, layout: TerminalFrameLayout) -> bool {
    &&& layout.cursor.0 == capped(s.col, 65535)
    &&& layout.cursor.1 == capped(s.row, 65535)
    &&& match (layout.occupied_bottom, s.occupied) {
        (Some(a), Some(b)) => a == capped(b, 65535),
        (None, None) => true,
        _ => false,
    }
}

fn to_u16(n: usize) -> (r: u16)
    ensures
        r == capped(n as int, 65535),
{
    if n < 65535 {
        n as u16
    } else {
        65535
    }
}

impl TerminalFrameTracker {
    pub fn new(start: (u16, u16), columns: u16, bottom_margin: Option<u16>) -> (r: Self)
        ensures
            r@ == screen_at(start, columns, bottom_margin),
            r@.wf(),
    {
        let columns: usize = if columns == 0 {
            1
        } else {
            columns as usize
        };
        let cursor_col: usize = if (start.0 as usize) < columns - 1 {
            start.0 as usize
        } else {
            columns - 1
        };
        let cursor_row: usize = start.1 as usize;
        let bottom: Option<usize> = match bottom_margin {
            Some(n) => Some(n as usize),
            None => None,
        };
        let r = TerminalFrameTracker {
            columns,
            bottom_margin: bottom,
            cursor_col,
            cursor_row,
            saved_cursor: (cursor_col, cursor_row, false),
            pending_wrap: false,
            pending_text: String::new(),
            occupied_bottom: None,
        };
        r
    }

    pub fn finish(self) -> (r: TerminalFrameLayout)
        requires
            self@.wf(),
        ensures
            layout_of(self@.flushed(), r),
    {
        let mut t = self;
        t.flush_text();
        TerminalFrameLayout {
            cursor: (to_u16(t.cursor_col), to_u16(t.cursor_row)),
            occupied_bottom: match t.occupied_bottom {
                Some(row) => Some(to_u16(row)),
                None => None,
            },
        }
    }

    pub fn flush_text(&mut self)
        requires
            old(self)@.wf(),
        ensures
            final(self)@ == old(self)@.flushed(),
            final(self)@.wf(),
    {
        if self.pending_text.as_str().is_empty() {
            return;
        }
        let clusters = graphemes(self.pending_text.as_str());
        self.pending_text = String::new();
        let ghost start = self@;
        assert(start == Screen { text: Seq::empty(), ..old(self)@ });
        let mut i: usize = 0;
        while i < clusters.len()
            invariant
                i <= clusters@.len(),
                self@.wf(),
                self@ == start.printed_all(texts(clusters@), i as int),
            decreases clusters@.len() - i,
        {
            let width = cluster_width(clusters[i].as_str());
            assert(texts(clusters@)[i as int] == clusters@[i as int]@);
            self.print_width(width);
            i = i + 1;
        }
        assert(texts(clusters@).len() == clusters@.len());
    }

    pub fn print_width(&mut self, width: usize)
        requires
            old(self)@.wf(),
        ensures
            final(self)@ == old(self)@.printed(width as int),
            final(self)@.wf(),
    {
        if width == 0 {
            return;
        }
        if self.pending_wrap || width > self.columns - self.cursor_col {
            self.cursor_col = 0;
            self.index();
            self.pending_wrap = false;
        }
        self.occupied_bottom = Some(
            match self.occupied_bottom {
                Some(row) if row > self.cursor_row => row,
                _ => self.cursor_row,
            },
        );
        if width >= self.columns - self.cursor_col {
            self.cursor_col = self.columns - 1;
            self.pending_wrap = true;
        } else {
            self.cursor_col = self.cursor_col + width;
        }
    }

    pub fn index(&mut self)
        requires
            old(self)@.wf(),
        ensures
            final(self)@ == old(self)@.indexed(),
            final(self)@.wf(),
    {
        if let Some(bottom) = self.bottom_margin {
            if self.cursor_row >= bottom {
                return;
            }
        }
        self.cursor_row = self.cursor_row.saturating_add(1);
    }

    pub fn move_down(&mut self, count: usize)
        requires
            old(self)@.wf(),
        ensures
            final(self)@ == old(self)@.moved_down(count as int),
            final(self)@.wf(),
    {
        let row = self.cursor_row.saturating_add(count);
        self.set_row(row);
    }

    pub fn move_up(&mut self, count: usize)
        requires
            old(self)@.wf(),
        ensures
            final(self)@ == old(self)@.moved_up(count as int),
            final(self)@.wf(),
    {
        self.pending_wrap = false;
        self.cursor_row = self.cursor_row.saturating_sub(count);
    }

    pub fn move_right(&mut self, count: usize)
        requires
            old(self)@.wf(),
        ensures
            final(self)@ == old(self)@.moved_right(count as int),
            final(self)@.wf(),
    {
        let col = self.cursor_col.saturating_add(count);
        self.set_col(col);
    }

    pub fn move_left(&mut self, count: usize)
        requires
            old(self)@.wf(),
        ensures
            final(self)@ == old(self)@.moved_left(count as int),
            final(self)@.wf(),
    {
        self.pending_wrap = false;
        self.cursor_col = self.cursor_col.saturating_sub(count);
    }

    pub fn set_row(&mut self, row: usize)
        requires
            old(self)@.wf(),
        ensures
            final(self)@ == old(self)@.at_row(row as int),
            final(self)@.wf(),
    {
        self.pending_wrap = false;
        self.cursor_row = match self.bottom_margin {
            Some(bottom) if row >= bottom => bottom,
            _ => row,
        };
    }

    pub fn set_col(&mut self, col: usize)
        requires
            old(self)@.wf(),
        ensures
            final(self)@ == old(self)@.at_col(col as int),
            final(self)@.wf(),
    {
        self.pending_wrap = false;
        self.cursor_col = if col < self.columns - 1 {
            col
        } else {
            self.columns - 1
        };
    }

    fn save_cursor(&mut self)
        requires
            old(self)@.wf(),
        ensures
            final(self)@ == old(self)@.saving(),
            final(self)@.wf(),
    {
        self.saved_cursor = (self.cursor_col, self.cursor_row, self.pending_wrap);
    }

    fn restore_cursor(&mut self)
        requires
            old(self)@.wf(),
        ensures
            final(self)@ == old(self)@.restored(),
            final(self)@.wf(),
    {
        self.cursor_col = self.saved_cursor.0;
        self.cursor_row = self.saved_cursor.1;
        self.pending_wrap = self.saved_cursor.2;
    }

    pub fn param(value: Option<u16>, default: usize) -> (r: usize)
        ensures
            r == param_or(value, default as int),
    {
        match value {
            Some(n) => if n != 0 {
                n as usize
            } else {
                default
            },
            None => default,
        }
    }

    pub fn print(&mut self, character: char)
        requires
            old(self)@.wf(),
        ensures
            final(self)@ == old(self)@.after(TerminalAction::Print(character)),
            final(self)@.wf(),
    {
        self.pending_text.push(character);
    }

    pub fn execute(&mut self, byte: u8)
        requires
            old(self)@.wf(),
        ensures
            final(self)@ == old(self)@.executed(byte),
            final(self)@.wf(),
    {
        self.flush_text();
        if byte == 0x0a {
            self.cursor_col = 0;
            self.pending_wrap = false;
            self.index();
        } else if byte == 0x0d {
            self.set_col(0);
        } else if byte == 0x08 {
            self.move_left(1);
        } else if byte == 0x09 {
            let next: usize = (self.cursor_col / 8 + 1) * 8;
            self.set_col(next);
        } else if byte == 0x0b || byte == 0x0c {
            self.pending_wrap = false;
            self.index();
        }
    }

    pub fn csi_dispatch(
        &mut self,
        first: Option<u16>,
        second: Option<u16>,
        ignore: bool,
        action: char,
    )
        requires
            old(self)@.wf(),
        ensures
            final(self)@ == old(self)@.controlled(first, second, ignore, action),
            final(self)@.wf(),
    {
        self.flush_text();
        if ignore {
            return;
        }
        let count = TerminalFrameTracker::param(first, 1);
        if action == 'A' {
            self.move_up(count);
        } else if action == 'B' || action == 'e' {
            self.move_down(count);
        } else if action == 'C' || action == 'a' {
            self.move_right(count);
        } else if action == 'D' {
            self.move_left(count);
        } else if action == 'E' {
            self.move_down(count);
            self.set_col(0);
        } else if action == 'F' {
            self.move_up(count);
            self.set_col(0);
        } else if action == 'G' || action == '`' {
            self.set_col(count - 1);
        } else if action == 'H' || action == 'f' {
            let col = TerminalFrameTracker::param(second, 1);
            self.set_row(count - 1);
            self.set_col(col - 1);
        } else if action == 'd' {
            self.set_row(count - 1);
        } else if action == 's' {
            self.save_cursor();
        } else if action == 'u' {
            self.restore_cursor();
        }
    }

    pub fn esc_dispatch(&mut self, ignore: bool, byte: u8)
        requires
            old(self)@.wf(),
        ensures
            final(self)@ == old(self)@.escaped(ignore, byte),
            final(self)@.wf(),
    {
        self.flush_text();
        if ignore {
            return;
        }
        if byte == 0x37 {
            self.save_cursor();
        } else if byte == 0x38 {
            self.restore_cursor();
        } else if byte == 0x44 {
            self.pending_wrap = false;
            self.index();
        } else if byte == 0x45 {
            self.cursor_col = 0;
            self.pending_wrap = false;
            self.index();
        } else if byte == 0x4d {
            self.move_up(1);
        }
    }

    pub fn apply(&mut self, action: TerminalAction)
        requires
            old(self)@.wf(),
        ensures
            final(self)@ == old(self)@.after(action),
            final(self)@.wf(),
    {
        match action {
            TerminalAction::Print(c) => self.print(c),
            TerminalAction::Execute(byte) => self.execute(byte),
            TerminalAction::Csi { first, second, ignore, action } => self.csi_dispatch(
                first,
                second,
                ignore,
                action,
            ),
            TerminalAction::Esc { ignore, byte } => self.esc_dispatch(ignore, byte),
        }
    }
}

/// Where the cursor stands behind the actions, starting at `start`.
pub fn layout_actions(
    actions: &[TerminalAction],
    start: (u16, u16),
    columns: u16,
    bottom_margin: Option<u16>,
) -> (r: TerminalFrameLayout)
    ensures
        layout_of(
            screen_at(start, columns, bottom_margin).after_all(
                actions@,
                actions@.len() as int,
            ).flushed(),
            r,
        ),
{
    let mut tracker = TerminalFrameTracker::new(start, columns, bottom_margin);
    let ghost begin = tracker@;
    let mut i: usize = 0;
    while i < actions.len()
        invariant
            i <= actions@.len(),
            tracker@.wf(),
            tracker@ == begin.after_all(actions@, i as int),
        decreases actions@.len() - i,
    {
        tracker.apply(actions[i]);
        i = i + 1;
    }
    tracker.finish()
}

/// Where the cursor stands behind the frame, starting at `start`, on a screen
/// of `columns` columns whose rows scroll at the bottom margin, if there is
/// one; and the lowest row that the frame wrote on.
pub fn terminal_frame_layout(
    frame: &[u8],
    start: (u16, u16),
    columns: u16,
    bottom_margin: Option<u16>,
) -> (r: TerminalFrameLayout)
    ensures
        layout_of(screen_after(frame@, start, columns, bottom_margin), r),
{
    let actions = parse_frame(frame);
    layout_actions(&actions, start, columns, bottom_margin)
}

proof fn lemma_printed_all_within(s: Screen, clusters: Seq<Seq<char>>, n: int)
    requires
        s.wf(),
        s.within_margin(),
    ensures
        s.printed_all(clusters, n).wf(),
        s.printed_all(clusters, n).within_margin(),
        s.printed_all(clusters, n).bottom == s.bottom,
    decreases n,
{
    if n > 0 {
        lemma_printed_all_within(s, clusters, n - 1);
    }
}

proof fn lemma_flushed_within(s: Screen)
    requires
        s.wf(),
        s.within_margin(),
    ensures
        s.flushed().wf(),
        s.flushed().within_margin(),
        s.flushed().bottom == s.bottom,
{
    let start = Screen { text: Seq::empty(), ..s };
    let clusters = grapheme_clusters(s.text);
    lemma_printed_all_within(start, clusters, clusters.len() as int);
}

/// A screen that is well formed, stays above its margin and has one that is a
/// row.
pub open spec fn sound(s: Screen) -> bool {
    &&& s.wf()
    &&& s.within_margin()
    &&& s.bottom matches Some(bottom) ==> bottom >= 0
}

proof fn lemma_moves_sound(s: Screen, n: int)
    requires
        sound(s),
        0 <= n,
    ensures
        sound(s.indexed()),
        sound(s.without_wrap()),
        sound(s.at_col(n)),
        sound(s.at_row(n)),
        sound(s.moved_up(n)),
        sound(s.moved_down(n)),
        sound(s.moved_left(n)),
        sound(s.moved_right(n)),
        sound(s.saving()),
        sound(s.restored()),
        s.at_row(n).bottom == s.bottom,
        s.moved_down(n).bottom == s.bottom,
        s.moved_up(n).bottom == s.bottom,
{
}

proof fn lemma_step_sound(s: Screen, action: TerminalAction)
    requires
        sound(s),
    ensures
        sound(s.after(action)),
        s.after(action).bottom == s.bottom,
{
    lemma_flushed_within(s);
    let f = s.flushed();
    match action {
        TerminalAction::Print(c) => {},
        TerminalAction::Execute(byte) => {
            lemma_moves_sound(f, 0);
            lemma_moves_sound(f, 1);
            lemma_moves_sound(f, (f.col / 8 + 1) * 8);
            let g = Screen { col: 0, wrap: false, ..f };
            lemma_moves_sound(g, 0);
            lemma_moves_sound(f.without_wrap(), 0);
        },
        TerminalAction::Csi { first, second, ignore, action } => {
            let count = param_or(first, 1);
            lemma_moves_sound(f, count);
            lemma_moves_sound(f, count - 1);
            lemma_moves_sound(f.moved_down(count), 0);
            lemma_moves_sound(f.moved_up(count), 0);
            lemma_moves_sound(f.at_row(count - 1), param_or(second, 1) - 1);
        },
        TerminalAction::Esc { ignore, byte } => {
            lemma_moves_sound(f, 1);
            let g = Screen { col: 0, wrap: false, ..f };
            lemma_moves_sound(g, 0);
            lemma_moves_sound(f.without_wrap(), 0);
        },
    }
}

proof fn lemma_after_all_sound(s: Screen, actions: Seq<TerminalAction>, n: int)
    requires
        sound(s),
    ensures
        sound(s.after_all(actions, n)),
        s.after_all(actions, n).bottom == s.bottom,
    decreases n,
{
    if n > 0 {
        lemma_after_all_sound(s, actions, n - 1);
        lemma_step_sound(s.after_all(actions, n - 1), actions[n - 1]);
    }
}

/// A frame that starts above a bottom margin never leaves the cursor below it,
/// nor writes below it, whatever its bytes.
pub proof fn law_frame_stays_above_margin(
    frame: Seq<u8>,
    start: (u16, u16),
    columns: u16,
    bottom: u16,
)
    requires
        start.1 <= bottom,
    ensures
        ({
            let s = screen_after(frame, start, columns, Some(bottom));
            &&& s.row <= bottom
            &&& s.occupied matches Some(row) ==> row <= bottom
            &&& 0 <= s.col < at_least_one(columns as int)
        }),
{
    let s = screen_at(start, columns, Some(bottom));
    let actions = frame_actions(frame);
    lemma_after_all_sound(s, actions, actions.len() as int);
    lemma_flushed_within(s.after_all(actions, actions.len() as int));
    lemma_after_all_columns(s, actions, actions.len() as int);
    lemma_flushed_columns(s.after_all(actions, actions.len() as int));
}

proof fn lemma_printed_all_columns(s: Screen, clusters: Seq<Seq<char>>, n: int)
    ensures
        s.printed_all(clusters, n).columns == s.columns,
    decreases n,
{
    if n > 0 {
        lemma_printed_all_columns(s, clusters, n - 1);
    }
}

proof fn lemma_flushed_columns(s: Screen)
    ensures
        s.flushed().columns == s.columns,
{
    let start = Screen { text: Seq::empty(), ..s };
    let clusters = grapheme_clusters(s.text);
    lemma_printed_all_columns(start, clusters, clusters.len() as int);
}

proof fn lemma_after_all_columns(s: Screen, actions: Seq<TerminalAction>, n: int)
    ensures
        s.after_all(actions, n).columns == s.columns,
    decreases n,
{
    if n > 0 {
        lemma_after_all_columns(s, actions, n - 1);
        lemma_flushed_columns(s.after_all(actions, n - 1));
    }
}

/// Placing what waits leaves nothing waiting, and changes nothing where nothing
/// waits.
pub proof fn law_flushing_is_done_once(s: Screen)
    ensures
        s.flushed().text.len() == 0,
        s.text.len() == 0 ==> s.flushed() == s,
        s.flushed().saved == s.saved,
        s.flushed().columns == s.columns,
        s.flushed().bottom == s.bottom,
{
    let start = Screen { text: Seq::empty(), ..s };
    let clusters = grapheme_clusters(s.text);
    lemma_printed_all_keeps(start, clusters, clusters.len() as int);
}

proof fn lemma_printed_all_keeps(s: Screen, clusters: Seq<Seq<char>>, n: int)
    ensures
        s.printed_all(clusters, n).text == s.text,
        s.printed_all(clusters, n).saved == s.saved,
        s.printed_all(clusters, n).columns == s.columns,
        s.printed_all(clusters, n).bottom == s.bottom,
    decreases n,
{
    if n > 0 {
        lemma_printed_all_keeps(s, clusters, n - 1);
    }
}

/// A character that is printed waits behind those printed before it, and a text
/// of one cluster takes the columns of that cluster.
pub proof fn law_printed_text_is_placed(s: Screen, c: char)
    requires
        s.wf(),
        s.text.len() == 0,
        !s.wrap,
        grapheme_clusters(seq![c]) == seq![seq![c]],
        s.col + cluster_columns(seq![c]) < s.columns,
    ensures
        s.after(TerminalAction::Print(c)).text == s.text + seq![c],
        s.after(TerminalAction::Print(c)).flushed().col == s.col + cluster_columns(seq![c]),
        s.after(TerminalAction::Print(c)).flushed().row == s.row,
{
    let t = s.after(TerminalAction::Print(c));
    assert(t.text =~= seq![c]);
    let start = Screen { text: Seq::empty(), ..t };
    reveal_with_fuel(Screen::printed_all, 3);
    assert(t.flushed() == start.printed_all(seq![seq![c]], 1));
}

/// A cluster moves the cursor by its columns. One that fills the row leaves the
/// cursor in the last column with a wrap pending; the next one, like one that
/// does not fit, starts in column 0 of the next row, which on the bottom margin
/// is the same row, scrolled. The row written on counts as occupied.
pub proof fn law_cluster_takes_its_columns(s: Screen, width: int)
    requires
        s.wf(),
        0 < width <= s.columns,
        s.row < usize::MAX,
    ensures
        ({
            let t = s.printed(width);
            &&& !s.wrap && s.col + width < s.columns ==> t.col == s.col + width && t.row == s.row
                && !t.wrap
            &&& !s.wrap && s.col + width == s.columns ==> t.col == s.columns - 1 && t.row == s.row
                && t.wrap
            &&& (s.wrap || s.col + width > s.columns) && s.bottom == Some(s.row) ==> t.row == s.row
            &&& (s.wrap || s.col + width > s.columns) && (s.bottom is None || s.bottom->0 > s.row)
                ==> t.row == s.row + 1
            &&& (s.wrap || s.col + width > s.columns) && width < s.columns ==> t.col == width
                && !t.wrap
            &&& (s.wrap || s.col + width > s.columns) && width == s.columns ==> t.col == s.columns
                - 1 && t.wrap
            &&& s.occupied is None ==> t.occupied == Some(t.row)
            &&& s.occupied is Some && s.occupied->0 >= t.row ==> t.occupied == s.occupied
            &&& s.occupied is Some && s.occupied->0 < t.row ==> t.occupied == Some(t.row)
            &&& t.text == s.text && t.saved == s.saved
        }),
        s.printed(0) == s,
{
}

/// A carriage return puts the cursor into column 0 of the row it is in, with no
/// wrap pending, and what is printed behind it starts there.
pub proof fn law_carriage_return_starts_the_row_anew(s: Screen, width: int)
    requires
        s.wf(),
        0 < width < s.columns,
    ensures
        ({
            let t = s.after(TerminalAction::Execute(0x0d));
            &&& t.col == 0
            &&& !t.wrap
            &&& t.row == s.flushed().row
            &&& t.occupied == s.flushed().occupied
            &&& t.saved == s.saved
            &&& t.text.len() == 0
            &&& t.printed(width).col == width
            &&& t.printed(width).row == t.row
        }),
{
    law_flushing_is_done_once(s);
    lemma_flushed_wf(s);
}

proof fn lemma_printed_all_wf(s: Screen, clusters: Seq<Seq<char>>, n: int)
    requires
        s.wf(),
    ensures
        s.printed_all(clusters, n).wf(),
    decreases n,
{
    if n > 0 {
        lemma_printed_all_wf(s, clusters, n - 1);
    }
}

proof fn lemma_flushed_wf(s: Screen)
    requires
        s.wf(),
    ensures
        s.flushed().wf(),
{
    let start = Screen { text: Seq::empty(), ..s };
    let clusters = grapheme_clusters(s.text);
    lemma_printed_all_wf(start, clusters, clusters.len() as int);
}

/// Which way the control bytes move the cursor: a line feed to the start of the
/// next row, a backspace one column to the left and never out of the row, a tab
/// to the next column that eight divides, a vertical tab and a form feed one row
/// straight down. Others move nothing. On the bottom margin rows scroll instead.
pub proof fn law_control_bytes_move_the_cursor(s: Screen, byte: u8)
    requires
        s.wf(),
        s.text.len() == 0,
        s.row < usize::MAX,
    ensures
        ({
            let t = s.after(TerminalAction::Execute(byte));
            let below = if s.bottom is Some && s.row >= s.bottom->0 {
                s.row
            } else {
                s.row + 1
            };
            &&& byte == 10 ==> t.col == 0 && t.row == below && !t.wrap
            &&& byte == 13 ==> t.col == 0 && t.row == s.row && !t.wrap
            &&& byte == 8 ==> t.row == s.row && !t.wrap && (s.col > 0 ==> t.col == s.col - 1) && (
            s.col == 0 ==> t.col == 0)
            &&& byte == 9 ==> t.row == s.row && !t.wrap && (t.col == s.columns - 1 || s.col < t.col
                <= s.col + 8 && t.col % 8 == 0)
            &&& byte == 9 && s.col + 8 < s.columns ==> t.col % 8 == 0
            &&& byte == 11 || byte == 12 ==> t.col == s.col && t.row == below && !t.wrap
            &&& byte != 8 && byte != 9 && byte != 10 && byte != 11 && byte != 12 && byte != 13
                ==> t == s
            &&& t.occupied == s.occupied && t.saved == s.saved && t.text.len() == 0
        }),
{
}

/// Where the control sequences put the cursor. Missing parameters and zeros mean
/// one; rows stop at the bottom margin and columns at the ends of the row.
pub proof fn law_control_sequences_move_the_cursor(
    s: Screen,
    first: Option<u16>,
    second: Option<u16>,
    action: char,
)
    requires
        s.wf(),
        s.text.len() == 0,
        s.row <= 65535,
        s.bottom matches Some(bottom) ==> 0 <= s.row <= bottom,
    ensures
        ({
            let t = s.after(TerminalAction::Csi { first, second, ignore: false, action });
            let n: int = if first is Some && first->0 > 0 {
                first->0 as int
            } else {
                1
            };
            let m: int = if second is Some && second->0 > 0 {
                second->0 as int
            } else {
                1
            };
            let lowest = |row: int|
                if s.bottom is Some && row > s.bottom->0 {
                    s.bottom->0
                } else {
                    row
                };
            let within = |col: int|
                if col >= s.columns {
                    s.columns - 1
                } else {
                    col
                };
            &&& action == 'A' ==> t.col == s.col && t.row == (if s.row >= n {
                s.row - n
            } else {
                0
            })
            &&& action == 'B' || action == 'e' ==> t.col == s.col && t.row == lowest(s.row + n)
            &&& action == 'C' || action == 'a' ==> t.row == s.row && t.col == within(s.col + n)
            &&& action == 'D' ==> t.row == s.row && t.col == (if s.col >= n {
                s.col - n
            } else {
                0
            })
            &&& action == 'E' ==> t.col == 0 && t.row == lowest(s.row + n)
            &&& action == 'F' ==> t.col == 0 && t.row == (if s.row >= n {
                s.row - n
            } else {
                0
            })
            &&& action == 'G' || action == '`' ==> t.row == s.row && t.col == within(n - 1)
            &&& action == 'H' || action == 'f' ==> t.row == lowest(n - 1) && t.col == within(m - 1)
            &&& action == 'd' ==> t.col == s.col && t.row == lowest(n - 1)
            &&& seq!['A', 'B', 'e', 'C', 'a', 'D', 'E', 'F', 'G', '`', 'H', 'f', 'd'].contains(
                action,
            ) ==> !t.wrap
            &&& action != 's' ==> t.saved == s.saved
            &&& t.occupied == s.occupied && t.text.len() == 0
        }),
        s.after(TerminalAction::Csi { first, second, ignore: true, action }) == s,
{
    let t = s.after(TerminalAction::Csi { first, second, ignore: false, action });
    if seq!['A', 'B', 'e', 'C', 'a', 'D', 'E', 'F', 'G', '`', 'H', 'f', 'd'].contains(action) {
        assert(!t.wrap);
    }
}

/// Where the escapes of one byte put the cursor: index one row down, next line to
/// the start of the row below, reverse index one row up.
pub proof fn law_escapes_move_the_cursor(s: Screen, byte: u8)
    requires
        s.wf(),
        s.text.len() == 0,
        s.row < usize::MAX,
    ensures
        ({
            let t = s.after(TerminalAction::Esc { ignore: false, byte });
            let below = if s.bottom is Some && s.row >= s.bottom->0 {
                s.row
            } else {
                s.row + 1
            };
            &&& byte == 'D' as u8 ==> t.col == s.col && t.row == below && !t.wrap
            &&& byte == 'E' as u8 ==> t.col == 0 && t.row == below && !t.wrap
            &&& byte == 'M' as u8 ==> t.col == s.col && !t.wrap && t.row == (if s.row > 0 {
                s.row - 1
            } else {
                0
            })
            &&& byte != '7' as u8 ==> t.saved == s.saved
            &&& t.occupied == s.occupied
        }),
        s.after(TerminalAction::Esc { ignore: true, byte }) == s,
{
    law_flushing_is_done_once(s);
}

/// The two ways to save the cursor, and the two ways to restore it.
pub open spec fn saves(action: TerminalAction) -> bool {
    match action {
        TerminalAction::Csi { ignore, action, .. } => !ignore && action == 's',
        TerminalAction::Esc { ignore, byte } => !ignore && byte == '7' as u8,
        _ => false,
    }
}

pub open spec fn restores(action: TerminalAction) -> bool {
    match action {
        TerminalAction::Csi { ignore, action, .. } => !ignore && action == 'u',
        TerminalAction::Esc { ignore, byte } => !ignore && byte == '8' as u8,
        _ => false,
    }
}

/// A restored cursor stands where it stood when it was saved, whatever was
/// printed and however it was moved in between.
pub proof fn law_restored_cursor_is_the_saved_one(
    s: Screen,
    save: TerminalAction,
    between: Seq<TerminalAction>,
    restore: TerminalAction,
)
    requires
        saves(save),
        restores(restore),
        forall|i: int| 0 <= i < between.len() ==> !saves(#[trigger] between[i]),
    ensures
        ({
            let t = s.after(save).after_all(between, between.len() as int).after(restore);
            &&& t.col == s.flushed().col
            &&& t.row == s.flushed().row
            &&& t.wrap == s.flushed().wrap
        }),
{
    let a = s.after(save);
    lemma_saved_is_kept(a, between, between.len() as int);
    law_flushing_is_done_once(a.after_all(between, between.len() as int));
}

proof fn lemma_saved_is_kept(s: Screen, actions: Seq<TerminalAction>, n: int)
    requires
        0 <= n <= actions.len(),
        forall|i: int| 0 <= i < actions.len() ==> !saves(#[trigger] actions[i]),
    ensures
        s.after_all(actions, n).saved == s.saved,
    decreases n,
{
    if n > 0 {
        lemma_saved_is_kept(s, actions, n - 1);
        law_flushing_is_done_once(s.after_all(actions, n - 1));
        assert(!saves(actions[n - 1]));
    }
}

/// A frame starts at the cursor it is given, and what is reported is where the
/// cursor stands behind the last action and the lowest row written on.
pub proof fn law_frame_starts_and_ends_at_the_cursor(
    frame: Seq<u8>,
    start: (u16, u16),
    columns: u16,
    bottom: Option<u16>,
    r: TerminalFrameLayout,
)
    requires
        layout_of(screen_after(frame, start, columns, bottom), r),
    ensures
        frame_actions(frame).len() == 0 && start.0 < columns ==> r.cursor == start
            && r.occupied_bottom is None,
        frame_actions(frame).len() == 0 && start.0 >= columns && columns > 0 ==> r.cursor == (
            (columns - 1) as u16,
            start.1,
        ),
        frame_actions(frame).len() > 0 && frame_actions(frame).last() == TerminalAction::Execute(13)
            ==> r.cursor.0 == 0,
        frame_actions(frame) == seq![TerminalAction::Execute(10)] && bottom is None && start.1
            < 65535 ==> r.cursor == (0u16, (start.1 + 1) as u16) && r.occupied_bottom is None,
{
    let s = screen_at(start, columns, bottom);
    let actions = frame_actions(frame);
    let n = actions.len() as int;
    reveal_with_fuel(Screen::after_all, 3);
    if n > 0 {
        let before = s.after_all(actions, n - 1);
        assert(s.wf());
        lemma_after_all_columns(s, actions, n - 1);
        lemma_flushed_columns(before);
        law_flushing_is_done_once(before);
    }
}

} // verus!
