//! The state of a menu: what the keys do to it and how it is drawn.
use crate::echo::{dim, dim_text, prompt_bar};
use crate::editor::{KeyCode, KeyModifiers};
use crate::inputbox::{add_cleared_rows, cleared_rows};
use crate::lang::{pick, t, Lang};
use crate::layout::{at_least_one, capped, not_negative};
use crate::mode::AgentMode;
use crate::picker::{
    inline_fuzzy_bar, inline_fuzzy_header, inline_fuzzy_help_line, inline_fuzzy_item_line,
    inline_fuzzy_scroll, inline_select_key, inline_single_confirm_header, inline_single_header,
    inline_single_help_line, inline_single_item_line, marked_row, plain_row, scrolled, select_key,
    wide_indices, InlineSelectKey,
};
use crate::screen::{add_op, lemma_assoc, no_ops, ops, Op, TerminalOp};
use crate::text::{from_chars, texts, to_chars};
use crate::width::{visible_width, width_of};
use vstd::prelude::*;
use vstd::string::*;

verus! {

/// The menus that are searched by typing and hold marks.
#[derive(Clone, Copy, Debug, PartialEq, Eq, Structural)]
pub enum MenuKind {
    /// Any number of marks; leaving keeps them.
    Toggle,
    /// One mark; leaving drops it.
    Radio,
    /// Any number of marks; leaving drops them.
    Pop,
}

#[derive(Debug)]
pub struct Menu {
    pub query: String,
    pub selected: usize,
    pub scroll: usize,
    pub active: Vec<bool>,
}

pub struct MenuState {
    pub query: Seq<char>,
    pub selected: int,
    pub scroll: int,
    pub active: Seq<bool>,
}

impl View for Menu {
    type V = MenuState;

    open spec fn view(&self) -> MenuState {
        MenuState {
            query: self.query@,
            selected: self.selected as int,
            scroll: self.scroll as int,
            active: self.active@,
        }
    }
}

/// Whether a menu is still open.
#[derive(Clone, Copy, Debug, PartialEq, Eq, Structural)]
pub enum MenuEnd {
    Open,
    Cancelled,
    Confirmed,
}

/// The focus on a row that is there, and the rows around it shown.
pub open spec fn settled(s: MenuState, found: int, rows: int) -> MenuState {
    let selected = if s.selected >= found {
        not_negative(found - 1)
    } else {
        s.selected
    };
    MenuState { selected, scroll: scrolled(selected, s.scroll, capped(found, rows)), ..s }
}

/// The query without its last character.
pub open spec fn shortened(query: Seq<char>) -> Seq<char> {
    if query.len() == 0 {
        query
    } else {
        query.drop_last()
    }
}

/// Another query: the focus goes to the best match.
pub open spec fn with_query(s: MenuState, query: Seq<char>) -> MenuState {
    MenuState { query, selected: 0, scroll: 0, ..s }
}

pub open spec fn focus_up(s: MenuState) -> MenuState {
    MenuState { selected: not_negative(s.selected - 1), ..s }
}

pub open spec fn focus_down(s: MenuState, found: int) -> MenuState {
    MenuState { selected: capped(s.selected + 1, not_negative(found - 1)), ..s }
}

/// Marks of which `index` is turned over, or is the only one.
pub open spec fn marked(active: Seq<bool>, index: int, radio: bool) -> Seq<bool> {
    if radio {
        Seq::new(active.len(), |i: int| i == index)
    } else if 0 <= index < active.len() {
        active.update(index, !active[index])
    } else {
        active
    }
}

/// Tab marks the row in focus.
pub open spec fn with_mark(s: MenuState, found: Seq<int>, radio: bool) -> MenuState {
    if s.selected < found.len() {
        MenuState { active: marked(s.active, found[s.selected], radio), ..s }
    } else {
        s
    }
}

/// How a menu is left by Esc: a menu whose marks are kept is confirmed.
pub open spec fn left(kind: MenuKind) -> MenuEnd {
    if kind is Toggle {
        MenuEnd::Confirmed
    } else {
        MenuEnd::Cancelled
    }
}

/// What a key does to a menu.
pub open spec fn after_menu_key(
    kind: MenuKind,
    s: MenuState,
    code: KeyCode,
    modifiers: KeyModifiers,
    found: Seq<int>,
) -> (MenuState, MenuEnd) {
    match code {
        KeyCode::Esc => (s, left(kind)),
        KeyCode::Enter => (s, MenuEnd::Confirmed),
        KeyCode::Tab => (with_mark(s, found, kind is Radio), MenuEnd::Open),
        KeyCode::Up => (focus_up(s), MenuEnd::Open),
        KeyCode::Down => (focus_down(s, found.len() as int), MenuEnd::Open),
        KeyCode::Backspace => (with_query(s, shortened(s.query)), MenuEnd::Open),
        KeyCode::Char(ch) => if ch == 'c' && modifiers.control && (kind is Pop
            || !modifiers.shift) {
            (s, MenuEnd::Cancelled)
        } else if ch == 'q' && (kind is Pop || s.query.len() == 0) {
            (s, left(kind))
        } else if ch == 'k' {
            (focus_up(s), MenuEnd::Open)
        } else if ch == 'j' {
            (focus_down(s, found.len() as int), MenuEnd::Open)
        } else if !modifiers.control {
            (with_query(s, s.query.push(ch)), MenuEnd::Open)
        } else {
            (s, MenuEnd::Open)
        },
        _ => (s, MenuEnd::Open),
    }
}

fn drop_last_char(s: &str) -> (r: String)
    ensures
        r@ == shortened(s@),
{
    let v = to_chars(s);
    let n: usize = v.len();
    if n == 0 {
        return s.to_owned();
    }
    let r = from_chars(&v, 0, n - 1);
    assert(r@ =~= s@.drop_last());
    r
}

impl Menu {
    pub fn new(active: Vec<bool>) -> (r: Self)
        ensures
            r@ == (MenuState {
                query: Seq::empty(),
                selected: 0,
                scroll: 0,
                active: active@,
            }),
    {
        Menu { query: String::new(), selected: 0, scroll: 0, active }
    }

    /// A menu with a single mark, on the row `initial` if there is one.
    pub fn radio(items: usize, initial: usize) -> (r: Self)
        ensures
            r@ == (MenuState {
                query: Seq::empty(),
                selected: 0,
                scroll: 0,
                active: Seq::new(items as nat, |i: int| i == initial),
            }),
    {
        let mut active: Vec<bool> = Vec::new();
        let mut i: usize = 0;
        while i < items
            invariant
                i <= items,
                active@.len() == i,
                forall|k: int| 0 <= k < i ==> active@[k] == (k == initial),
            decreases items - i,
        {
            active.push(i == initial);
            i = i + 1;
        }
        assert(active@ =~= Seq::new(items as nat, |i: int| i == initial));
        Menu::new(active)
    }

    /// Before drawing: the focus and the rows that are shown, given how many
    /// entries were found and how many rows there are for them.
    pub fn settle(&mut self, found: usize, rows: usize)
        ensures
            final(self)@ == settled(old(self)@, found as int, rows as int),
    {
        if self.selected >= found {
            self.selected = found.saturating_sub(1);
        }
        let visible: usize = if found < rows {
            found
        } else {
            rows
        };
        self.scroll = inline_fuzzy_scroll(self.selected, self.scroll, visible);
    }

    fn mark(&mut self, index: usize, radio: bool)
        ensures
            final(self)@ == (MenuState {
                active: marked(old(self)@.active, index as int, radio),
                ..old(self)@
            }),
    {
        if radio {
            let n: usize = self.active.len();
            let other = Menu::radio(n, index);
            self.active = other.active;
            assert(self.active@ =~= marked(old(self)@.active, index as int, true));
        } else if index < self.active.len() {
            let value = self.active[index];
            self.active.set(index, !value);
        }
    }

    fn search(&mut self, query: String)
        ensures
            final(self)@ == with_query(old(self)@, query@),
    {
        self.query = query;
        self.selected = 0;
        self.scroll = 0;
    }

    fn down(&mut self, found: usize)
        ensures
            final(self)@ == focus_down(old(self)@, found as int),
    {
        let last: usize = found.saturating_sub(1);
        self.selected = if self.selected < last {
            self.selected + 1
        } else {
            last
        };
    }

    pub fn key(&mut self, kind: MenuKind, code: KeyCode, modifiers: KeyModifiers, found: &Vec<usize>) -> (
        end: MenuEnd)
        ensures
            (final(self)@, end) == after_menu_key(
                kind,
                old(self)@,
                code,
                modifiers,
                wide_indices(found@),
            ),
    {
        assert(wide_indices(found@).len() == found@.len());
        let leave = if kind == MenuKind::Toggle {
            MenuEnd::Confirmed
        } else {
            MenuEnd::Cancelled
        };
        let pop = kind == MenuKind::Pop;
        if code == KeyCode::Esc {
            return leave;
        }
        if code == KeyCode::Enter {
            return MenuEnd::Confirmed;
        }
        if code == KeyCode::Tab {
            if self.selected < found.len() {
                assert(wide_indices(found@)[self.selected as int] == found@[self.selected as int]);
                let index = found[self.selected];
                self.mark(index, kind == MenuKind::Radio);
            }
            return MenuEnd::Open;
        }
        if code == KeyCode::Up {
            self.selected = self.selected.saturating_sub(1);
            return MenuEnd::Open;
        }
        if code == KeyCode::Down {
            self.down(found.len());
            return MenuEnd::Open;
        }
        if code == KeyCode::Backspace {
            let query = drop_last_char(self.query.as_str());
            self.search(query);
            return MenuEnd::Open;
        }
        if let KeyCode::Char(ch) = code {
            let empty = self.query.as_str().is_empty();
            if ch == 'c' && modifiers.control && (pop || !modifiers.shift) {
                return MenuEnd::Cancelled;
            }
            if ch == 'q' && (pop || empty) {
                return leave;
            }
            if ch == 'k' {
                self.selected = self.selected.saturating_sub(1);
            } else if ch == 'j' {
                self.down(found.len());
            } else if !modifiers.control {
                let mut query = self.query.clone();
                query.push(ch);
                self.search(query);
            }
        }
        MenuEnd::Open
    }

    /// The choice of a menu with one mark: the marked row, else the row in
    /// focus.
    pub fn choice(&self, found: &Vec<usize>) -> (r: Option<usize>)
        ensures
            match r {
                Some(index) => (index < self@.active.len() && self@.active[index as int] && forall|
                    k: int,
                |
                    0 <= k < index ==> !self@.active[k]) || ((forall|k: int|
                    0 <= k < self@.active.len() ==> !self@.active[k]) && self@.selected
                    < found@.len() && index == found@[self@.selected]),
                None => (forall|k: int| 0 <= k < self@.active.len() ==> !self@.active[k])
                    && self@.selected >= found@.len(),
            },
    {
        let mut i: usize = 0;
        while i < self.active.len()
            invariant
                i <= self.active@.len(),
                forall|k: int| 0 <= k < i ==> !self.active@[k],
            decreases self.active@.len() - i,
        {
            if self.active[i] {
                return Some(i);
            }
            i = i + 1;
        }
        if self.selected < found.len() {
            Some(found[self.selected])
        } else {
            None
        }
    }
}

/// The rows of a menu, each behind the bar.
pub open spec fn menu_rows(body: Seq<Seq<char>>, row: int, n: int) -> Seq<Op>
    decreases n,
{
    if n <= 0 {
        Seq::empty()
    } else {
        menu_rows(body, row, n - 1) + menu_row(body[n - 1], row + n - 1)
    }
}

/// One row of a menu.
pub open spec fn menu_row(text: Seq<char>, row: int) -> Seq<Op> {
    seq![
        Op::MoveTo(0, row),
        Op::Print(prompt_bar(AgentMode::Normal)),
        Op::Print(text),
    ]
}

/// A menu: a title, its rows, and at its end what the keys do.
pub open spec fn menu_ops(
    anchor: int,
    lines: int,
    header: Seq<char>,
    body: Seq<Seq<char>>,
    help: Seq<char>,
) -> Seq<Op> {
    seq![Op::HideCursor] + cleared_rows(anchor, lines) + menu_row(header, anchor) + menu_rows(
        body,
        anchor + 1,
        body.len() as int,
    ) + menu_row(help, anchor + not_negative(lines - 1))
}

fn add_row(list: &mut Vec<TerminalOp>, text: String, row: u16)
    ensures
        ops(final(list)@) == ops(old(list)@) + menu_row(text@, row as int),
{
    let ghost before = ops(list@);
    add_op(list, TerminalOp::MoveTo(0, row));
    add_op(list, TerminalOp::Print(inline_fuzzy_bar()));
    add_op(list, TerminalOp::Print(text));
    assert(ops(list@) =~= before + menu_row(text@, row as int));
}

/// Draws a menu from the row `anchor` on.
pub fn draw_menu(anchor: u16, lines: u16, header: String, body: &Vec<String>, help: String) -> (r: Vec<
    TerminalOp,
>)
    requires
        anchor + lines <= 65535,
        body@.len() + 2 <= lines,
    ensures
        ops(r@) == menu_ops(anchor as int, lines as int, header@, texts(body@), help@),
{
    let mut list = no_ops();
    add_op(&mut list, TerminalOp::HideCursor);
    let ghost p0 = seq![Op::HideCursor];
    assert(ops(list@) =~= p0);
    add_cleared_rows(&mut list, anchor, lines);
    let ghost p1 = p0 + cleared_rows(anchor as int, lines as int);
    add_row(&mut list, header, anchor);
    let ghost p2 = p1 + menu_row(header@, anchor as int);
    let ghost all = texts(body@);
    let mut i: usize = 0;
    assert(p2 + menu_rows(all, anchor + 1, 0) =~= p2);
    while i < body.len()
        invariant
            i <= body@.len(),
            anchor + lines <= 65535,
            body@.len() + 2 <= lines,
            all == texts(body@),
            ops(list@) == p2 + menu_rows(all, anchor + 1, i as int),
        decreases body@.len() - i,
    {
        let row: u16 = anchor + 1 + i as u16;
        assert(all[i as int] == body@[i as int]@);
        add_row(&mut list, body[i].clone(), row);
        proof {
            lemma_assoc(
                p2,
                menu_rows(all, anchor + 1, i as int),
                menu_row(all[i as int], anchor + 1 + i),
            );
        }
        i = i + 1;
    }
    assert(all.len() == body@.len());
    add_row(&mut list, help, anchor + (lines - 1));
    list
}

/// The first row of a menu of so many lines that ends at the cursor.
pub fn menu_anchor(cursor: Option<(u16, u16)>, lines: u16) -> (r: u16)
    ensures
        r == match cursor {
            Some((_, row)) => not_negative(row - not_negative(lines - 1)),
            None => 0,
        },
{
    let above: u16 = lines.saturating_sub(1);
    let row: u16 = match cursor {
        Some((_, row)) => row,
        None => above,
    };
    row.saturating_sub(above)
}

/// The menu taken off the screen.
pub fn clear_inline_fuzzy(anchor: u16, lines: u16) -> (r: Vec<TerminalOp>)
    ensures
        ops(r@) == cleared_rows(anchor as int, lines as int) + seq![
            Op::MoveTo(0, anchor as int),
            Op::ShowCursor,
        ],
{
    let mut list = no_ops();
    add_cleared_rows(&mut list, anchor, lines);
    let ghost before = ops(list@);
    assert(before =~= cleared_rows(anchor as int, lines as int));
    crate::screen::add_two(&mut list, TerminalOp::MoveTo(0, anchor), TerminalOp::ShowCursor);
    list
}

/// The columns of a menu beside its bar.
pub open spec fn menu_width(cols: int) -> int {
    at_least_one(not_negative(cols - width_of(prompt_bar(AgentMode::Normal))))
}

pub fn menu_columns(cols: u16) -> (r: usize)
    ensures
        r == menu_width(cols as int),
        r >= 1,
{
    let bar = inline_fuzzy_bar();
    let w = (cols as usize).saturating_sub(visible_width(bar.as_str()));
    if w == 0 {
        1
    } else {
        w
    }
}

/// The number of entries that are drawn.
pub open spec fn shown_count(found: int, scroll: int, rows: int) -> int {
    capped(not_negative(found - scroll), capped(found, rows))
}

pub open spec fn nothing_found(lang: Lang) -> Seq<char> {
    dim(pick(lang, "no matches"@, "没有匹配项"@))
}

fn no_match_line(lang: Lang) -> (r: String)
    ensures
        r@ == nothing_found(lang),
{
    dim_text(t(lang, "no matches", "没有匹配项"))
}

fn count_shown(found: usize, scroll: usize, rows: usize) -> (r: usize)
    ensures
        r == shown_count(found as int, scroll as int, rows as int),
        r <= rows,
        r > 0 ==> scroll + r <= found,
{
    let left = found.saturating_sub(scroll);
    let most: usize = if found < rows {
        found
    } else {
        rows
    };
    if left < most {
        left
    } else {
        most
    }
}

/// The entries of a menu with marks.
pub open spec fn marked_body(
    lang: Lang,
    s: MenuState,
    items: Seq<Seq<char>>,
    found: Seq<int>,
    rows: int,
    width: nat,
) -> Seq<Seq<char>> {
    if found.len() == 0 {
        seq![nothing_found(lang)]
    } else {
        Seq::new(
            shown_count(found.len() as int, s.scroll, rows) as nat,
            |k: int|
                marked_row(
                    items[found[s.scroll + k]],
                    s.scroll + k == s.selected,
                    found[s.scroll + k] < s.active.len() && s.active[found[s.scroll + k]],
                    width,
                ),
        )
    }
}

impl Menu {
    fn marked_lines(
        &self,
        lang: Lang,
        items: &Vec<String>,
        found: &Vec<usize>,
        rows: usize,
        width: usize,
    ) -> (r: Vec<String>)
        requires
            rows >= 1,
            forall|k: int| 0 <= k < found@.len() ==> (#[trigger] found@[k]) < items@.len(),
        ensures
            texts(r@) == marked_body(
                lang,
                self@,
                texts(items@),
                wide_indices(found@),
                rows as int,
                width as nat,
            ),
            r@.len() <= rows,
    {
        let mut out: Vec<String> = Vec::new();
        let ghost wide = wide_indices(found@);
        let ghost all = texts(items@);
        assert(wide.len() == found@.len());
        if found.is_empty() {
            out.push(no_match_line(lang));
            assert(texts(out@) =~= seq![nothing_found(lang)]);
            return out;
        }
        let total: usize = found.len();
        let n = count_shown(total, self.scroll, rows);
        let mut k: usize = 0;
        while k < n
            invariant
                k <= n,
                n > 0 ==> self.scroll + n <= total,
                total == found@.len(),
                wide == wide_indices(found@),
                all == texts(items@),
                forall|j: int| 0 <= j < found@.len() ==> (#[trigger] found@[j]) < items@.len(),
                out@.len() == k,
                forall|j: int|
                    0 <= j < k ==> (#[trigger] out@[j])@ == marked_row(
                        all[wide[self.scroll + j]],
                        self.scroll + j == self.selected,
                        wide[self.scroll + j] < self.active@.len()
                            && self.active@[wide[self.scroll + j]],
                        width as nat,
                    ),
            decreases n - k,
        {
            let at: usize = self.scroll + k;
            let index = found[at];
            assert(wide[at as int] == index);
            assert(all[index as int] == items@[index as int]@);
            let checked = index < self.active.len() && self.active[index];
            let line = inline_fuzzy_item_line(
                items[index].as_str(),
                at == self.selected,
                checked,
                width,
            );
            out.push(line);
            k = k + 1;
        }
        assert(texts(out@) =~= marked_body(
            lang,
            self@,
            all,
            wide,
            rows as int,
            width as nat,
        ));
        out
    }

    /// Draws a menu of models or files.
    pub fn draw_inline_fuzzy(
        &self,
        lang: Lang,
        anchor: u16,
        lines: u16,
        cols: u16,
        items: &Vec<String>,
        found: &Vec<usize>,
    ) -> (r: Vec<TerminalOp>)
        requires
            lines >= 3,
            anchor + lines <= 65535,
            forall|k: int| 0 <= k < found@.len() ==> (#[trigger] found@[k]) < items@.len(),
        ensures
            ({
                let width = menu_width(cols as int) as nat;
                ops(r@) == menu_ops(
                    anchor as int,
                    lines as int,
                    crate::echo::bold(
                        crate::width::truncated(
                            crate::picker::titled(
                                pick(lang, "Select model"@, "选择模型"@),
                                self@.query,
                            ),
                            width,
                        ),
                    ),
                    marked_body(
                        lang,
                        self@,
                        texts(items@),
                        wide_indices(found@),
                        lines - 2,
                        width,
                    ),
                    dim(
                        crate::width::truncated(
                            pick(
                                lang,
                                "type search · j/k move · Tab toggle · Enter/q confirm"@,
                                "输入搜索 · j/k 移动 · Tab 切换 · Enter/q 确认"@,
                            ),
                            width,
                        ),
                    ),
                )
            }),
    {
        let width = menu_columns(cols);
        let body = self.marked_lines(lang, items, found, (lines - 2) as usize, width);
        let header = inline_fuzzy_header(lang, self.query.as_str(), width);
        let help = inline_fuzzy_help_line(lang, width);
        draw_menu(anchor, lines, header, &body, help)
    }
}

/// What a menu with a single choice returned.
#[derive(Clone, Copy, Debug, PartialEq, Eq, Structural)]
pub enum InlineSelectOutcome {
    Cancelled,
    Chosen(usize),
    /// The entry is to be deleted, which was confirmed.
    Deleted(usize),
}

/// A menu with a single choice, some of whose entries may be deleted from it.
#[derive(Debug)]
pub struct SinglePicker {
    pub query: String,
    pub selected: usize,
    pub scroll: usize,
    /// The entry that waits for a yes.
    pub confirming: Option<usize>,
}

pub struct PickerState {
    pub query: Seq<char>,
    pub selected: int,
    pub scroll: int,
    pub confirming: Option<usize>,
}

impl View for SinglePicker {
    type V = PickerState;

    open spec fn view(&self) -> PickerState {
        PickerState {
            query: self.query@,
            selected: self.selected as int,
            scroll: self.scroll as int,
            confirming: self.confirming,
        }
    }
}

/// The entry in focus.
pub open spec fn in_focus(s: PickerState, found: Seq<usize>) -> Option<usize> {
    if 0 <= s.selected < found.len() {
        Some(found[s.selected])
    } else {
        None
    }
}

/// What a key does to a menu with a single choice. While it waits for a yes,
/// every other key takes the question back.
pub open spec fn after_picker_key(
    s: PickerState,
    code: KeyCode,
    modifiers: KeyModifiers,
    found: Seq<usize>,
    deletable: bool,
) -> (PickerState, Option<InlineSelectOutcome>) {
    match s.confirming {
        Some(index) => (
            PickerState { confirming: None, ..s },
            if code == KeyCode::Char('y') || code == KeyCode::Char('Y') {
                Some(InlineSelectOutcome::Deleted(index))
            } else {
                None
            },
        ),
        None => match select_key(code, modifiers.control, deletable) {
            InlineSelectKey::Cancel => (s, Some(InlineSelectOutcome::Cancelled)),
            InlineSelectKey::Accept => (
                s,
                Some(
                    match in_focus(s, found) {
                        Some(index) => InlineSelectOutcome::Chosen(index),
                        None => InlineSelectOutcome::Cancelled,
                    },
                ),
            ),
            InlineSelectKey::DeleteRequest => (
                PickerState { confirming: in_focus(s, found), ..s },
                None,
            ),
            InlineSelectKey::Up => (
                PickerState { selected: not_negative(s.selected - 1), ..s },
                None,
            ),
            InlineSelectKey::Down => (
                PickerState {
                    selected: capped(s.selected + 1, not_negative(found.len() - 1)),
                    ..s
                },
                None,
            ),
            InlineSelectKey::Backspace => (
                PickerState { query: shortened(s.query), selected: 0, scroll: 0, ..s },
                None,
            ),
            InlineSelectKey::Char(ch) => (
                PickerState { query: s.query.push(ch), selected: 0, scroll: 0, ..s },
                None,
            ),
            InlineSelectKey::Ignore => (s, None),
        },
    }
}

impl SinglePicker {
    /// A menu with the focus on `initial`, or on the last of `count` entries.
    pub fn new(count: usize, initial: usize) -> (r: Self)
        ensures
            r@ == (PickerState {
                query: Seq::empty(),
                selected: capped(initial as int, not_negative(count - 1)),
                scroll: 0,
                confirming: None,
            }),
    {
        let last: usize = count.saturating_sub(1);
        SinglePicker {
            query: String::new(),
            selected: if initial < last {
                initial
            } else {
                last
            },
            scroll: 0,
            confirming: None,
        }
    }

    pub fn settle(&mut self, found: usize, rows: usize)
        ensures
            ({
                let s = MenuState {
                    query: old(self)@.query,
                    selected: old(self)@.selected,
                    scroll: old(self)@.scroll,
                    active: Seq::empty(),
                };
                let t = settled(s, found as int, rows as int);
                final(self)@ == (PickerState {
                    selected: t.selected,
                    scroll: t.scroll,
                    ..old(self)@
                })
            }),
    {
        if self.selected >= found {
            self.selected = found.saturating_sub(1);
        }
        let visible: usize = if found < rows {
            found
        } else {
            rows
        };
        self.scroll = inline_fuzzy_scroll(self.selected, self.scroll, visible);
    }

    fn focus(&self, found: &Vec<usize>) -> (r: Option<usize>)
        ensures
            r == in_focus(self@, found@),
    {
        if self.selected < found.len() {
            Some(found[self.selected])
        } else {
            None
        }
    }

    /// One key.
    pub fn inline_single_select_deletable(
        &mut self,
        code: KeyCode,
        modifiers: KeyModifiers,
        found: &Vec<usize>,
        deletable: bool,
    ) -> (r: Option<InlineSelectOutcome>)
        ensures
            (final(self)@, r) == after_picker_key(old(self)@, code, modifiers, found@, deletable),
    {
        if let Some(index) = self.confirming {
            self.confirming = None;
            let yes = match code {
                KeyCode::Char(ch) => ch == 'y' || ch == 'Y',
                _ => false,
            };
            return if yes {
                Some(InlineSelectOutcome::Deleted(index))
            } else {
                None
            };
        }
        let key = inline_select_key(code, modifiers, deletable);
        if key == InlineSelectKey::Cancel {
            return Some(InlineSelectOutcome::Cancelled);
        }
        if key == InlineSelectKey::Accept {
            return match self.focus(found) {
                Some(index) => Some(InlineSelectOutcome::Chosen(index)),
                None => Some(InlineSelectOutcome::Cancelled),
            };
        }
        if key == InlineSelectKey::DeleteRequest {
            let wanted = self.focus(found);
            self.confirming = wanted;
            return None;
        }
        if key == InlineSelectKey::Up {
            self.selected = self.selected.saturating_sub(1);
            return None;
        }
        if key == InlineSelectKey::Down {
            let last: usize = found.len().saturating_sub(1);
            self.selected = if self.selected < last {
                self.selected + 1
            } else {
                last
            };
            return None;
        }
        if key == InlineSelectKey::Backspace {
            self.query = drop_last_char(self.query.as_str());
            self.selected = 0;
            self.scroll = 0;
            return None;
        }
        if let InlineSelectKey::Char(ch) = key {
            self.query.push(ch);
            self.selected = 0;
            self.scroll = 0;
        }
        None
    }

    fn plain_lines(
        &self,
        lang: Lang,
        items: &Vec<String>,
        found: &Vec<usize>,
        rows: usize,
        width: usize,
    ) -> (r: Vec<String>)
        requires
            rows >= 1,
            forall|k: int| 0 <= k < found@.len() ==> (#[trigger] found@[k]) < items@.len(),
        ensures
            texts(r@) == plain_body(
                lang,
                self@,
                texts(items@),
                found@,
                rows as int,
                width as nat,
            ),
            r@.len() <= rows,
    {
        let mut out: Vec<String> = Vec::new();
        let ghost all = texts(items@);
        if found.is_empty() {
            out.push(no_match_line(lang));
            assert(texts(out@) =~= seq![nothing_found(lang)]);
            return out;
        }
        let total: usize = found.len();
        let n = count_shown(total, self.scroll, rows);
        let mut k: usize = 0;
        while k < n
            invariant
                k <= n,
                n > 0 ==> self.scroll + n <= total,
                total == found@.len(),
                all == texts(items@),
                forall|j: int| 0 <= j < found@.len() ==> (#[trigger] found@[j]) < items@.len(),
                out@.len() == k,
                forall|j: int|
                    0 <= j < k ==> (#[trigger] out@[j])@ == plain_row(
                        all[found@[self.scroll + j] as int],
                        self.scroll + j == self.selected,
                        width as nat,
                    ),
            decreases n - k,
        {
            let at: usize = self.scroll + k;
            let index = found[at];
            assert(all[index as int] == items@[index as int]@);
            let line = inline_single_item_line(items[index].as_str(), at == self.selected, width);
            out.push(line);
            k = k + 1;
        }
        assert(texts(out@) =~= plain_body(
            lang,
            self@,
            all,
            found@,
            rows as int,
            width as nat,
        ));
        out
    }

    /// Draws the menu; while it waits for a yes, the question takes the place of
    /// the title.
    pub fn draw_inline_single(
        &self,
        lang: Lang,
        anchor: u16,
        lines: u16,
        cols: u16,
        title: &str,
        items: &Vec<String>,
        found: &Vec<usize>,
        delete_labels: Option<&Vec<String>>,
    ) -> (r: Vec<TerminalOp>)
        requires
            lines >= 3,
            anchor + lines <= 65535,
            forall|k: int| 0 <= k < found@.len() ==> (#[trigger] found@[k]) < items@.len(),
        ensures
            ({
                let width = menu_width(cols as int) as nat;
                ops(r@) == menu_ops(
                    anchor as int,
                    lines as int,
                    match confirm_label(
                        self@.confirming,
                        match delete_labels {
                            Some(labels) => Some(texts(labels@)),
                            None => None,
                        },
                    ) {
                        Some(label) => "\x1b[1m\x1b[31m"@ + crate::width::truncated(
                            crate::picker::confirm_text(lang, label),
                            width,
                        ) + "\x1b[0m"@,
                        None => crate::echo::bold(
                            crate::width::truncated(
                                crate::picker::titled(title@, self@.query),
                                width,
                            ),
                        ),
                    },
                    plain_body(lang, self@, texts(items@), found@, lines - 2, width),
                    dim(
                        crate::width::truncated(
                            crate::picker::single_help(lang, delete_labels is Some),
                            width,
                        ),
                    ),
                )
            }),
    {
        let width = menu_columns(cols);
        let body = self.plain_lines(lang, items, found, (lines - 2) as usize, width);
        let mut label: Option<String> = None;
        if let Some(index) = self.confirming {
            if let Some(labels) = delete_labels {
                if index < labels.len() {
                    assert(texts(labels@)[index as int] == labels@[index as int]@);
                    label = Some(labels[index].clone());
                }
            }
        }
        let header = match &label {
            Some(label) => inline_single_confirm_header(lang, label.as_str(), width),
            None => inline_single_header(title, self.query.as_str(), width),
        };
        let help = inline_single_help_line(lang, width, delete_labels.is_some());
        draw_menu(anchor, lines, header, &body, help)
    }
}

/// The choice that a menu without deletions came to.
pub fn inline_single_select(outcome: InlineSelectOutcome) -> (r: Option<usize>)
    ensures
        r == match outcome {
            InlineSelectOutcome::Chosen(index) => Some(index),
            _ => None,
        },
{
    match outcome {
        InlineSelectOutcome::Chosen(index) => Some(index),
        _ => None,
    }
}

/// The label of the entry that waits for a yes.
pub open spec fn confirm_label(confirming: Option<usize>, labels: Option<Seq<Seq<char>>>) -> Option<
    Seq<char>,
> {
    match (confirming, labels) {
        (Some(index), Some(labels)) => if index < labels.len() {
            Some(labels[index as int])
        } else {
            None
        },
        _ => None,
    }
}

/// The entries of a menu without marks.
pub open spec fn plain_body(
    lang: Lang,
    s: PickerState,
    items: Seq<Seq<char>>,
    found: Seq<usize>,
    rows: int,
    width: nat,
) -> Seq<Seq<char>> {
    if found.len() == 0 {
        seq![nothing_found(lang)]
    } else {
        Seq::new(
            shown_count(found.len() as int, s.scroll, rows) as nat,
            |k: int|
                plain_row(
                    items[found[s.scroll + k] as int],
                    s.scroll + k == s.selected,
                    width,
                ),
        )
    }
}

/// An entry is only ever deleted by a request for it and a yes right behind it.
pub proof fn law_deletion_takes_two_keys(
    s: PickerState,
    code: KeyCode,
    modifiers: KeyModifiers,
    found: Seq<usize>,
    deletable: bool,
    index: usize,
)
    requires
        after_picker_key(s, code, modifiers, found, deletable).1 == Some(
            InlineSelectOutcome::Deleted(index),
        ),
    ensures
        s.confirming == Some(index),
        code == KeyCode::Char('y') || code == KeyCode::Char('Y'),
{
}

/// A menu that was not given the right to delete never asks for a deletion.
pub proof fn law_no_deletion_without_right(
    s: PickerState,
    code: KeyCode,
    modifiers: KeyModifiers,
    found: Seq<usize>,
)
    requires
        s.confirming is None,
    ensures
        after_picker_key(s, code, modifiers, found, false).0.confirming is None,
        !(after_picker_key(s, code, modifiers, found, false).1 matches Some(
            InlineSelectOutcome::Deleted(_),
        )),
{
}

/// What the keys do to a menu that is searched by typing: the focus moves by one
/// row and stays on the list, a character is added to the query and Backspace
/// takes the last one away, and either starts again at the best match.
pub proof fn law_menu_keys(
    menu: &mut Menu,
    kind: MenuKind,
    code: KeyCode,
    found: &Vec<usize>,
    end: MenuEnd,
)
    requires
        call_ensures(
            Menu::key,
            (menu, kind, code, (KeyModifiers { control: false, shift: false }), found),
            end,
        ),
    ensures
        ({
            let before = old(menu)@;
            let after = final(menu)@;
            &&& code is Up || code == KeyCode::Char('k') ==> end is Open && after.query
                == before.query && (before.selected > 0 ==> after.selected == before.selected - 1)
                && (before.selected == 0 ==> after.selected == 0)
            &&& code is Down || code == KeyCode::Char('j') ==> end is Open && after.query
                == before.query && (before.selected + 1 < found@.len() ==> after.selected
                == before.selected + 1) && (before.selected + 1 == found@.len() ==> after.selected
                == before.selected)
            &&& code is Backspace && before.query.len() > 0 ==> after.query
                == before.query.drop_last() && after.selected == 0 && end is Open
            &&& code matches KeyCode::Char(ch) ==> ch != 'q' && ch != 'j' && ch != 'k' ==> after.query
                == before.query.push(ch) && after.selected == 0 && after.scroll == 0 && end is Open
            &&& code is Enter ==> end is Confirmed && after == before
            &&& code is Esc ==> after == before && (kind is Toggle ==> end is Confirmed) && (!(kind
                is Toggle) ==> end is Cancelled)
            &&& code == KeyCode::Char('q') && before.query.len() == 0 ==> after == before && (kind
                is Toggle ==> end is Confirmed) && (!(kind is Toggle) ==> end is Cancelled)
            &&& !(code is Tab) ==> after.active == before.active
        }),
{
}

/// Tab turns the mark of the row in focus over and no other; where only one may
/// be marked, it marks that row alone.
pub proof fn law_tab_marks_the_row_in_focus(
    menu: &mut Menu,
    kind: MenuKind,
    modifiers: KeyModifiers,
    found: &Vec<usize>,
    end: MenuEnd,
    i: int,
)
    requires
        call_ensures(Menu::key, (menu, kind, KeyCode::Tab, modifiers, found), end),
        0 <= i < old(menu)@.active.len(),
        old(menu).selected < found@.len(),
        found@[old(menu).selected as int] < old(menu)@.active.len(),
    ensures
        ({
            let at = found@[old(menu).selected as int] as int;
            &&& end is Open
            &&& final(menu)@.active.len() == old(menu)@.active.len()
            &&& !(kind is Radio) && i == at ==> final(menu)@.active[i] == !old(menu)@.active[i]
            &&& !(kind is Radio) && i != at ==> final(menu)@.active[i] == old(menu)@.active[i]
            &&& kind is Radio ==> (final(menu)@.active[i] <==> i == at)
            &&& final(menu)@.query == old(menu)@.query && final(menu).selected == old(menu).selected
        }),
{
    assert(wide_indices(found@)[old(menu).selected as int] == found@[old(menu).selected as int]);
}

/// Ctrl+C leaves any menu without a choice.
pub proof fn law_control_c_leaves_menus(
    menu: &mut Menu,
    kind: MenuKind,
    found: &Vec<usize>,
    end: MenuEnd,
)
    requires
        call_ensures(
            Menu::key,
            (menu, kind, KeyCode::Char('c'), (KeyModifiers { control: true, shift: false }), found),
            end,
        ),
    ensures
        end is Cancelled,
        final(menu)@ == old(menu)@,
{
}

/// The choice of a menu with one mark is the marked entry; without a mark it is
/// the entry in focus.
pub proof fn law_choice_is_the_mark_or_the_focus(menu: &Menu, found: &Vec<usize>, r: Option<usize>, i: int)
    requires
        call_ensures(Menu::choice, (menu, found), r),
        0 <= i < menu@.active.len(),
    ensures
        menu@.active[i] && (forall|k: int| 0 <= k < i ==> !menu@.active[k]) ==> r == Some(
            i as usize,
        ),
        (forall|k: int| 0 <= k < menu@.active.len() ==> !menu@.active[k]) && menu.selected
            < found@.len() ==> r == Some(found@[menu.selected as int]),
        (forall|k: int| 0 <= k < menu@.active.len() ==> !menu@.active[k]) && menu.selected
            >= found@.len() ==> r is None,
{
    if menu@.active[i] && (forall|k: int| 0 <= k < i ==> !menu@.active[k]) {
        assert(r is Some) by {
            if r is None {
                assert(!menu@.active[i]);
            }
        }
        let j = r->0 as int;
        assert(j == i) by {
            if j < menu@.active.len() && menu@.active[j] && (forall|k: int|
                0 <= k < j ==> !menu@.active[k]) {
                if i < j {
                    assert(!menu@.active[i]);
                }
                if j < i {
                    assert(!menu@.active[j]);
                }
            } else {
                assert(!menu@.active[i]);
            }
        }
    }
    if forall|k: int| 0 <= k < menu@.active.len() ==> !menu@.active[k] {
        if let Some(j) = r {
            if j < menu@.active.len() {
                assert(!menu@.active[j as int]);
            }
        }
    }
}

/// A menu with a single choice: Enter takes the entry in focus, Esc and Ctrl+C
/// leave, and a deletion waits for a yes.
pub proof fn law_single_choice_keys(
    picker: &mut SinglePicker,
    code: KeyCode,
    modifiers: KeyModifiers,
    found: &Vec<usize>,
    deletable: bool,
    r: Option<InlineSelectOutcome>,
)
    requires
        call_ensures(
            SinglePicker::inline_single_select_deletable,
            (picker, code, modifiers, found, deletable),
            r,
        ),
    ensures
        ({
            let before = old(picker)@;
            let after = final(picker)@;
            let asked = before.confirming is Some;
            &&& !asked && code is Enter && before.selected < found@.len() ==> r == Some(
                InlineSelectOutcome::Chosen(found@[before.selected]),
            )
            &&& !asked && code is Enter && before.selected >= found@.len() ==> r == Some(
                InlineSelectOutcome::Cancelled,
            )
            &&& !asked && code is Esc ==> r == Some(InlineSelectOutcome::Cancelled)
            &&& !asked && code == KeyCode::Char('c') && modifiers.control ==> r == Some(
                InlineSelectOutcome::Cancelled,
            )
            &&& !asked && code == KeyCode::Char('d') && modifiers.control && deletable
                && before.selected < found@.len() ==> r is None && after.confirming == Some(
                found@[before.selected],
            )
            &&& asked && (code == KeyCode::Char('y') || code == KeyCode::Char('Y')) ==> r == Some(
                InlineSelectOutcome::Deleted(before.confirming->0),
            )
            &&& asked && !(code == KeyCode::Char('y') || code == KeyCode::Char('Y')) ==> r is None
                && after == (PickerState { confirming: None, ..before })
            &&& r matches Some(InlineSelectOutcome::Deleted(_)) ==> asked
            &&& !asked && code is Up && !modifiers.control ==> (before.selected > 0
                ==> after.selected == before.selected - 1)
            &&& !asked && code is Down && !modifiers.control ==> (before.selected + 1 < found@.len()
                ==> after.selected == before.selected + 1)
            &&& !asked && code is Backspace && before.query.len() > 0 ==> after.query
                == before.query.drop_last()
            &&& !asked && !modifiers.control ==> (code matches KeyCode::Char(ch) ==> ch != 'j' && ch
                != 'k' ==> after.query == before.query.push(ch) && after.selected == 0)
        }),
{
}

/// A menu is drawn with its title on top, its rows below each other, and the keys
/// on its last line.
pub proof fn law_menu_rows_in_order(body: Seq<Seq<char>>, row: int, i: int, n: int)
    requires
        0 <= i < n <= body.len(),
    ensures
        menu_rows(body, row, n).len() == 3 * n,
        menu_rows(body, row, n)[3 * i] == Op::MoveTo(0, row + i),
        menu_rows(body, row, n)[3 * i + 1] == Op::Print(prompt_bar(AgentMode::Normal)),
        menu_rows(body, row, n)[3 * i + 2] == Op::Print(body[i]),
    decreases n,
{
    lemma_menu_rows_len(body, row, n - 1);
    if i < n - 1 {
        law_menu_rows_in_order(body, row, i, n - 1);
    }
}

proof fn lemma_menu_rows_len(body: Seq<Seq<char>>, row: int, n: int)
    requires
        0 <= n,
    ensures
        menu_rows(body, row, n).len() == 3 * n,
    decreases n,
{
    if n > 0 {
        lemma_menu_rows_len(body, row, n - 1);
    }
}

/// The entries shown are those found, from the scroll on, with the focus on the
/// selected one and the marks as they are set.
pub proof fn law_rows_show_what_was_found(
    lang: Lang,
    s: MenuState,
    items: Seq<Seq<char>>,
    found: Seq<int>,
    rows: int,
    width: nat,
    k: int,
)
    requires
        rows >= 1,
        0 <= s.scroll <= s.scroll + k < found.len(),
        0 <= k < rows,
    ensures
        marked_body(lang, s, items, found, rows, width).len() <= rows,
        k < marked_body(lang, s, items, found, rows, width).len(),
        marked_body(lang, s, items, found, rows, width)[k] == marked_row(
            items[found[s.scroll + k]],
            s.scroll + k == s.selected,
            found[s.scroll + k] < s.active.len() && s.active[found[s.scroll + k]],
            width,
        ),
{
}

/// A menu ends at the cursor, and starts at the top where it is too long for that.
pub proof fn law_menus_end_at_the_cursor(cursor: Option<(u16, u16)>, lines: u16, r: u16)
    requires
        call_ensures(menu_anchor, (cursor, lines), r),
        lines >= 1,
    ensures
        cursor matches Some(at) ==> at.1 + 1 >= lines ==> r + lines == at.1 + 1,
        cursor matches Some(at) ==> at.1 + 1 < lines ==> r == 0,
        cursor is None ==> r == 0,
{
}

} // verus!
