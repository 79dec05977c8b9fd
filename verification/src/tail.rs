//! The live tail: the part of the screen below the output that stays in view
//! while replies stream in.
use crate::echo::{
    committed_text, committed_user_messages_text, dim, dim_text, message_views, queued_before,
    queued_prompt_lines, QueuedPrompt,
};
use crate::editor::{fresh_editor, LiveReplEditor, LiveSubmission};
use crate::footer::ReplFooterStatus;
use crate::frame::{
    layout_of, screen_after, terminal_frame_layout, TerminalFrameLayout,
};
use crate::inputbox::{
    add_cleared_rows, add_feeds, box_height, box_ops, cleared_rows, feeds,
    render_repl_input_with_footer, repl_input_rendered_rows, scroll_for, BoxShape, InputBox,
};
use crate::jobs::{
    background_job_lines, contains_name, job_wake_headline, jobs_differ, strip_differs,
    strip_lines, wake_headline, BackgroundReport, JobOverview,
};
use crate::lang::Lang;
use crate::layout::{at_least_one, capped, not_negative};
use crate::mode::AgentMode;
use crate::placement::{
    bit, live_frame_output_bottom, live_tail_next_start, live_tail_placement, lowest_start,
    max_live_tail_start, max_of, next_start, placement_of, row16, ends_on_free_line,
    LiveTailPlacement,
};
use crate::screen::{
    add_one, add_op, add_ops, add_two, in_update, lemma_assoc, no_ops, ops,
    synchronized_terminal_update, CursorAfterUpdate, Op, TerminalOp,
};
use crate::text::{decimal, decimal_text, texts};
use vstd::prelude::*;
use vstd::string::*;

verus! {

/// What a piece of a streamed reply is.
#[derive(Clone, Copy, Debug, PartialEq, Eq, Structural)]
pub enum ChatStreamKind {
    Content,
    Reasoning,
}

#[derive(Debug)]
pub struct ChatStreamChunk {
    pub kind: ChatStreamKind,
    pub text: String,
}

#[derive(Debug)]
pub struct LiveReplTail {
    pub editor: LiveReplEditor,
    pub queued: Vec<QueuedPrompt>,
    pub pending_chunks: Vec<ChatStreamChunk>,
    pub footer: ReplFooterStatus,
    pub jobs: Vec<JobOverview>,
    pub job_spinner: usize,
    pub output_cursor: (u16, u16),
    pub tail_start: u16,
    pub tail_rows: u16,
    pub input_cursor: (u16, u16),
    pub rendered: bool,
    pub external_output_active: bool,
    pub raw_mode_handoff: bool,
}

/// The chunks as pairs of kind and text.
pub open spec fn chunk_views(v: Seq<ChatStreamChunk>) -> Seq<(ChatStreamKind, Seq<char>)> {
    v.map_values(|c: ChatStreamChunk| (c.kind, c.text@))
}

/// A chunk joins the last one where both are of one kind.
pub open spec fn with_chunk(
    v: Seq<(ChatStreamKind, Seq<char>)>,
    kind: ChatStreamKind,
    text: Seq<char>,
) -> Seq<(ChatStreamKind, Seq<char>)> {
    if v.len() > 0 && v.last().0 == kind {
        v.update(v.len() - 1, (kind, v.last().1 + text))
    } else {
        v.push((kind, text))
    }
}

/// The messages with one more put behind the last one whose number is not
/// greater.
pub open spec fn inserted_by_seq(v: Seq<QueuedPrompt>, p: QueuedPrompt) -> Seq<QueuedPrompt>
    decreases v.len(),
{
    if v.len() == 0 || v.last().seq <= p.seq {
        v.push(p)
    } else {
        inserted_by_seq(v.drop_last(), p).push(v.last())
    }
}

/// The messages by their number; of two with one number the earlier stays
/// first.
pub open spec fn by_seq(v: Seq<QueuedPrompt>) -> Seq<QueuedPrompt>
    decreases v.len(),
{
    if v.len() == 0 {
        v
    } else {
        inserted_by_seq(by_seq(v.drop_last()), v.last())
    }
}

pub open spec fn ascending_seq(v: Seq<QueuedPrompt>) -> bool {
    forall|i: int, j: int| 0 <= i < j < v.len() ==> (#[trigger] v[i]).seq <= (#[trigger] v[j]).seq
}

proof fn lemma_inserted_by_seq(v: Seq<QueuedPrompt>, p: QueuedPrompt)
    requires
        ascending_seq(v),
    ensures
        ascending_seq(inserted_by_seq(v, p)),
        inserted_by_seq(v, p).len() == v.len() + 1,
        forall|i: int|
            0 <= i < inserted_by_seq(v, p).len() ==> (#[trigger] inserted_by_seq(v, p)[i]).seq
                <= p.seq || (v.len() > 0 && inserted_by_seq(v, p)[i].seq <= v.last().seq),
    decreases v.len(),
{
    if v.len() == 0 || v.last().seq <= p.seq {
        assert forall|i: int| 0 <= i < v.len() implies (#[trigger] v[i]).seq <= p.seq by {
            if i < v.len() - 1 {
                assert(v[i].seq <= v[v.len() - 1].seq);
            }
        }
    } else {
        let w = v.drop_last();
        assert(ascending_seq(w)) by {
            assert forall|i: int, j: int| 0 <= i < j < w.len() implies (#[trigger] w[i]).seq <= (
            #[trigger] w[j]).seq by {
                assert(w[i] == v[i] && w[j] == v[j]);
            }
        }
        lemma_inserted_by_seq(w, p);
        let u = inserted_by_seq(w, p);
        assert forall|i: int| 0 <= i < u.len() implies (#[trigger] u[i]).seq <= v.last().seq by {
            if w.len() > 0 {
                assert(w.last() == v[v.len() - 2]);
                assert(v[v.len() - 2].seq <= v[v.len() - 1].seq);
            }
        }
    }
}

/// Messages that wait are shown and sent in the order of their numbers.
pub proof fn law_queue_is_in_order(v: Seq<QueuedPrompt>)
    ensures
        ascending_seq(by_seq(v)),
        by_seq(v).len() == v.len(),
    decreases v.len(),
{
    if v.len() > 0 {
        law_queue_is_in_order(v.drop_last());
        lemma_inserted_by_seq(by_seq(v.drop_last()), v.last());
    }
}

fn insert_by_seq(v: &mut Vec<QueuedPrompt>, p: QueuedPrompt)
    ensures
        final(v)@ == inserted_by_seq(old(v)@, p),
{
    let ghost all = v@;
    let mut k: usize = v.len();
    assert(all.take(k as int) =~= all);
    assert(inserted_by_seq(all.take(k as int), p) + all.skip(k as int) =~= inserted_by_seq(all, p));
    while k > 0 && v[k - 1].seq > p.seq
        invariant
            k <= v@.len(),
            v@ == all,
            inserted_by_seq(all, p) == inserted_by_seq(all.take(k as int), p) + all.skip(k as int),
        decreases k,
    {
        let ghost t = all.take(k as int);
        assert(t.last() == all[k - 1]);
        assert(t.drop_last() =~= all.take(k - 1));
        assert(inserted_by_seq(all.take(k - 1), p).push(all[k - 1]) + all.skip(k as int)
            =~= inserted_by_seq(all.take(k - 1), p) + all.skip(k - 1));
        k = k - 1;
    }
    let ghost t = all.take(k as int);
    assert(k > 0 ==> t.last() == all[k - 1]);
    assert(inserted_by_seq(t, p) == t.push(p));
    v.insert(k, p);
    assert(v@ =~= t.push(p) + all.skip(k as int));
}

/// The prompts that are not among the named ones.
pub open spec fn not_named(ids: Seq<Seq<char>>) -> spec_fn(QueuedPrompt) -> bool {
    |p: QueuedPrompt| !ids.contains(p.prompt_id@)
}

pub open spec fn named(ids: Seq<Seq<char>>) -> spec_fn(QueuedPrompt) -> bool {
    |p: QueuedPrompt| ids.contains(p.prompt_id@)
}

fn remove_named(queued: &mut Vec<QueuedPrompt>, ids: &Vec<String>)
    ensures
        final(queued)@ == old(queued)@.filter(not_named(texts(ids@))),
{
    let ghost all = queued@;
    let ghost keep = not_named(texts(ids@));
    let mut i: usize = 0;
    let ghost mut k: int = 0;
    proof {
        reveal(Seq::filter);
        assert(all.take(0).filter(keep) =~= Seq::empty());
        assert(all.take(0).filter(keep) + all.skip(0) =~= all);
    }
    while i < queued.len()
        invariant
            0 <= k <= all.len(),
            i <= queued@.len(),
            keep == not_named(texts(ids@)),
            queued@ == all.take(k).filter(keep) + all.skip(k),
            i == all.take(k).filter(keep).len(),
        decreases all.len() - k,
    {
        assert(queued@[i as int] == all[k]);
        proof {
            reveal(Seq::filter);
            assert(all.take(k + 1).drop_last() =~= all.take(k));
        }
        let ghost done = all.take(k).filter(keep);
        if !contains_name(ids, queued[i].prompt_id.as_str()) {
            assert(done.push(all[k]) + all.skip(k + 1) =~= queued@);
            i = i + 1;
        } else {
            queued.remove(i);
            assert(queued@ =~= done + all.skip(k + 1));
        }
        proof {
            k = k + 1;
        }
    }
    assert(k == all.len());
    assert(all.take(k) =~= all);
    assert(all.skip(k) =~= Seq::empty());
    assert(queued@ =~= all.filter(keep));
}

/// The note above a queue that does not fit.
pub open spec fn hidden_queue_note(lang: Lang, omitted: nat) -> Seq<char> {
    dim(
        match lang {
            Lang::Zh => "… 已隐藏 "@ + decimal(omitted) + " 行排队内容"@,
            Lang::En => "… "@ + decimal(omitted) + " queued lines hidden"@,
        },
    )
}

/// The lines of the queue in at most `max` rows: its last lines under a note of
/// how many are hidden.
pub open spec fn clipped_queue(lang: Lang, lines: Seq<Seq<char>>, max: int) -> Seq<Seq<char>> {
    if lines.len() > max {
        let keep = not_negative(max - 1);
        seq![hidden_queue_note(lang, (lines.len() - keep) as nat)] + lines.skip(
            lines.len() - keep,
        )
    } else {
        lines
    }
}

fn clip_queue(lang: Lang, lines: Vec<String>, max: usize) -> (r: Vec<String>)
    ensures
        texts(r@) == clipped_queue(lang, texts(lines@), max as int),
        r@.len() > 0 <==> lines@.len() > 0,
{
    let n: usize = lines.len();
    assert(texts(lines@).len() == n);
    if n <= max {
        return lines;
    }
    let keep: usize = if max == 0 {
        0
    } else {
        max - 1
    };
    let number = decimal_text((n - keep) as u64);
    let mut note = crate::lang::t(lang, "… ", "… 已隐藏 ").to_owned();
    note.append(number.as_str());
    note.append(crate::lang::t(lang, " queued lines hidden", " 行排队内容"));
    let mut out: Vec<String> = Vec::new();
    out.push(dim_text(note.as_str()));
    assert(texts(out@) =~= seq![hidden_queue_note(lang, (n - keep) as nat)]);
    let ghost head = texts(out@);
    let mut i: usize = n - keep;
    assert(head + texts(lines@).subrange(n - keep, n - keep) =~= head);
    while i < n
        invariant
            n - keep <= i <= n,
            keep <= n,
            n == lines@.len(),
            out@.len() > 0,
            texts(out@) == head + texts(lines@).subrange(n - keep, i as int),
        decreases n - i,
    {
        let line = lines[i].clone();
        proof {
            crate::text::lemma_texts_push(out@, line);
        }
        assert(texts(lines@)[i as int] == line@);
        out.push(line);
        i = i + 1;
        assert(texts(out@) =~= head + texts(lines@).subrange(n - keep, i as int));
    }
    assert(texts(lines@).subrange(n - keep, n as int) =~= texts(lines@).skip(n - keep));
    out
}

/// The lines, each on an emptied row of its own from `row` on.
pub open spec fn drawn_lines(lines: Seq<Seq<char>>, row: int, n: int) -> Seq<Op>
    decreases n,
{
    if n <= 0 {
        Seq::empty()
    } else {
        drawn_lines(lines, row, n - 1) + seq![
            Op::MoveTo(0, row16(row + n - 1)),
            Op::ClearLine,
            Op::Print(lines[n - 1]),
        ]
    }
}

fn add_drawn_lines(list: &mut Vec<TerminalOp>, lines: &Vec<String>, row: u16) -> (next: u16)
    ensures
        ops(final(list)@) == ops(old(list)@) + drawn_lines(
            texts(lines@),
            row as int,
            lines@.len() as int,
        ),
        next == row16(row + lines@.len()),
{
    let ghost before = ops(list@);
    let mut i: usize = 0;
    let mut at: u16 = row;
    assert(before + drawn_lines(texts(lines@), row as int, 0) =~= before);
    while i < lines.len()
        invariant
            i <= lines@.len(),
            at == row16(row + i),
            ops(list@) == before + drawn_lines(texts(lines@), row as int, i as int),
        decreases lines@.len() - i,
    {
        let ghost done = drawn_lines(texts(lines@), row as int, i as int);
        let ghost now = ops(list@);
        add_op(list, TerminalOp::MoveTo(0, at));
        add_op(list, TerminalOp::ClearLine);
        add_op(list, TerminalOp::Print(lines[i].clone()));
        assert(texts(lines@)[i as int] == lines@[i as int]@);
        let ghost more = seq![
            Op::MoveTo(0, row16(row + i)),
            Op::ClearLine,
            Op::Print(texts(lines@)[i as int]),
        ];
        assert(ops(list@) =~= now + more);
        proof {
            lemma_assoc(before, done, more);
        }
        at = at.saturating_add(1);
        i = i + 1;
    }
    at
}

/// How a tail is laid out.
pub struct TailShape {
    pub queue: Seq<Seq<char>>,
    pub jobs: Seq<Seq<char>>,
    pub editor_rows: int,
    pub total_rows: int,
}

/// The parts of a tail on a screen of the given size: the queue clipped so that
/// the editor stays in view, the box of the editor, and the strip.
pub open spec fn tail_shape(lang: Lang, tail: LiveReplTail, cols: int, rows: int) -> TailShape {
    let editor_rows = box_height(lang, tail.editor.input@, tail.editor.is_pasted, false, cols);
    let all = queued_before(
        lang,
        tail.queued@,
        tail.queued@.len() as int,
        tail.editor.mode,
        cols,
    );
    let max = not_negative(not_negative(at_least_one(rows) - editor_rows) - 3);
    let queue = clipped_queue(lang, all, max);
    let jobs = strip_lines(lang, tail.jobs@, tail.job_spinner as nat, cols);
    TailShape {
        queue,
        jobs,
        editor_rows,
        total_rows: row16(
            row16(
                row16(row16(1 + row16(queue.len() as int)) + bit(all.len() > 0)) + editor_rows,
            ) + row16(jobs.len() as int),
        ),
    }
}

/// Whether the tail ended on the last usable row when it was drawn last.
pub open spec fn was_anchored(tail: LiveReplTail, rows: int) -> bool {
    tail.tail_rows > 0 && row16(tail.tail_start + tail.tail_rows) == at_least_one(rows) - 1
}

/// Where the tail is drawn next.
pub open spec fn tail_placement(
    lang: Lang,
    tail: LiveReplTail,
    output: (int, int),
    cols: int,
    rows: int,
) -> (int, int, int, bool) {
    placement_of(
        output.0,
        output.1,
        tail_shape(lang, tail, cols, rows).total_rows,
        at_least_one(rows),
        was_anchored(tail, rows),
    )
}

/// The box of the tail's editor.
pub open spec fn editor_box(tail: LiveReplTail) -> BoxShape {
    BoxShape {
        mode: tail.editor.mode,
        input: tail.editor.input@,
        cursor: tail.editor.cursor as int,
        is_pasted: tail.editor.is_pasted,
        show_hint: false,
    }
}

/// The screen scrolled by the rows that the tail lacks.
pub open spec fn scroll_ops(overflow: int, rows: int) -> Seq<Op> {
    if overflow > 0 {
        seq![Op::MoveTo(0, at_least_one(rows) - 1)] + feeds(overflow)
    } else {
        Seq::empty()
    }
}

/// An emptied row.
pub open spec fn blank_row(row: int) -> Seq<Op> {
    seq![Op::MoveTo(0, row), Op::ClearLine]
}

/// The row that the box starts on before room is made for it.
pub open spec fn box_row(queue: Seq<Seq<char>>, start: int) -> int {
    if queue.len() > 0 {
        row16(row16(row16(start + 1) + queue.len()) + 1)
    } else {
        row16(start + 1)
    }
}

/// The queue of the tail, with an empty row above it and, where there is one,
/// below it.
pub open spec fn queue_ops(queue: Seq<Seq<char>>, start: int) -> Seq<Op> {
    blank_row(start) + drawn_lines(queue, row16(start + 1), queue.len() as int) + if queue.len()
        > 0 {
        blank_row(row16(row16(start + 1) + queue.len()))
    } else {
        Seq::empty()
    }
}

/// The strip, drawn from `row` on, and the cursor back in the input.
pub open spec fn strip_ops(jobs: Seq<Seq<char>>, row: int) -> Seq<Op> {
    if jobs.len() > 0 {
        drawn_lines(jobs, row, jobs.len() as int) + seq![Op::MoveToInputCursor]
    } else {
        Seq::empty()
    }
}

/// Everything that is drawn to show the tail below an output that ended at
/// `output`.
pub open spec fn resume_ops(
    lang: Lang,
    tail: LiveReplTail,
    output: (int, int),
    cols: int,
    rows: int,
) -> Seq<Op> {
    let shape = tail_shape(lang, tail, cols, rows);
    let (_, start, overflow, _) = tail_placement(lang, tail, output, cols, rows);
    drawn_tail(
        lang,
        tail,
        shape.queue,
        shape.jobs,
        start,
        overflow,
        cols,
        at_least_one(rows),
    )
}

/// The tail after it was drawn.
pub open spec fn resumed(
    lang: Lang,
    tail: LiveReplTail,
    output: (int, int),
    cols: int,
    rows: int,
    after: LiveReplTail,
) -> bool {
    let (row, start, _, _) = tail_placement(lang, tail, output, cols, rows);
    &&& after.output_cursor.0 == output.0
    &&& after.output_cursor.1 == row
    &&& after.tail_start == start
    &&& after.tail_rows == tail_shape(lang, tail, cols, rows).total_rows
    &&& after.rendered
    &&& after == (LiveReplTail {
        output_cursor: after.output_cursor,
        tail_start: after.tail_start,
        tail_rows: after.tail_rows,
        rendered: true,
        ..tail
    })
}

/// Emptying the rows of the tail that are on the screen.
pub open spec fn suspend_ops(tail: LiveReplTail, rows: int) -> Seq<Op> {
    if tail.rendered {
        let visible = capped(tail.tail_rows as int, not_negative(rows - tail.tail_start));
        cleared_rows(tail.tail_start as int, visible) + seq![
            Op::MoveTo(tail.output_cursor.0 as int, tail.output_cursor.1 as int),
        ]
    } else {
        Seq::empty()
    }
}

impl LiveReplTail {
    pub fn new(
        mode: AgentMode,
        history: Vec<String>,
        queued: Vec<QueuedPrompt>,
        footer: ReplFooterStatus,
        output_cursor: (u16, u16),
    ) -> (r: Self)
        ensures
            r.editor@ == fresh_editor(mode, texts(history@)),
            r.queued == queued,
            r.footer == footer,
            r.output_cursor == output_cursor,
            r.pending_chunks@.len() == 0,
            r.jobs@.len() == 0,
            r.job_spinner == 0,
            r.tail_start == 0,
            r.tail_rows == 0,
            r.input_cursor == (0u16, 0u16),
            !r.rendered,
            !r.external_output_active,
            !r.raw_mode_handoff,
    {
        LiveReplTail {
            editor: LiveReplEditor::new(mode, history),
            queued,
            pending_chunks: Vec::new(),
            footer,
            jobs: Vec::new(),
            job_spinner: 0,
            output_cursor,
            tail_start: 0,
            tail_rows: 0,
            input_cursor: (0, 0),
            rendered: false,
            external_output_active: false,
            raw_mode_handoff: false,
        }
    }

    pub fn mode(&self) -> (r: AgentMode)
        ensures
            r == self.editor.mode,
    {
        self.editor.mode
    }

    pub fn set_footer(&mut self, footer: ReplFooterStatus)
        ensures
            *final(self) == (LiveReplTail { footer, ..*old(self) }),
    {
        self.footer = footer;
    }

    /// Takes the tail off the screen.
    pub fn suspend(&mut self, terminal_rows: u16) -> (r: Vec<TerminalOp>)
        ensures
            ops(r@) == suspend_ops(*old(self), terminal_rows as int),
            *final(self) == (LiveReplTail { rendered: false, ..*old(self) }),
    {
        let mut list = no_ops();
        if !self.rendered {
            return list;
        }
        let visible: u16 = if self.tail_start >= terminal_rows {
            0
        } else if self.tail_rows < terminal_rows - self.tail_start {
            self.tail_rows
        } else {
            terminal_rows - self.tail_start
        };
        add_cleared_rows(&mut list, self.tail_start, visible);
        add_one(&mut list, TerminalOp::MoveTo(self.output_cursor.0, self.output_cursor.1));
        assert(ops(list@) =~= suspend_ops(*self, terminal_rows as int));
        self.rendered = false;
        list
    }

    fn add_queue(list: &mut Vec<TerminalOp>, queue: &Vec<String>, start: u16) -> (row: u16)
        ensures
            ops(final(list)@) == ops(old(list)@) + queue_ops(texts(queue@), start as int),
            row == box_row(texts(queue@), start as int),
    {
        let ghost before = ops(list@);
        assert(texts(queue@).len() == queue@.len());
        add_two(list, TerminalOp::MoveTo(0, start), TerminalOp::ClearLine);
        let ghost p1 = blank_row(start as int);
        let first: u16 = start.saturating_add(1);
        let next = add_drawn_lines(list, queue, first);
        let ghost n2 = drawn_lines(texts(queue@), first as int, queue@.len() as int);
        let ghost p2 = p1 + n2;
        proof {
            lemma_assoc(before, p1, n2);
        }
        if queue.is_empty() {
            assert(p2 + Seq::<Op>::empty() =~= p2);
            next
        } else {
            add_two(list, TerminalOp::MoveTo(0, next), TerminalOp::ClearLine);
            proof {
                lemma_assoc(before, p2, blank_row(next as int));
            }
            next.saturating_add(1)
        }
    }

    fn add_strip(list: &mut Vec<TerminalOp>, jobs: &Vec<String>, row: u16)
        ensures
            ops(final(list)@) == ops(old(list)@) + strip_ops(texts(jobs@), row as int),
    {
        let ghost before = ops(list@);
        assert(texts(jobs@).len() == jobs@.len());
        if jobs.is_empty() {
            assert(before + Seq::<Op>::empty() =~= before);
            return;
        }
        let _ = add_drawn_lines(list, jobs, row);
        add_one(list, TerminalOp::MoveToInputCursor);
        proof {
            lemma_assoc(
                before,
                drawn_lines(texts(jobs@), row as int, jobs@.len() as int),
                seq![Op::MoveToInputCursor],
            );
        }
    }

    /// Shows the tail below an output that ended at `output`.
    pub fn resume_at(&mut self, lang: Lang, output: (u16, u16), size: (u16, u16)) -> (r: Vec<
        TerminalOp,
    >)
        ensures
            ops(r@) == resume_ops(
                lang,
                *old(self),
                (output.0 as int, output.1 as int),
                size.0 as int,
                size.1 as int,
            ),
            resumed(
                lang,
                *old(self),
                (output.0 as int, output.1 as int),
                size.0 as int,
                size.1 as int,
                *final(self),
            ),
    {
        let cols: usize = size.0 as usize;
        let rows: u16 = if size.1 == 0 {
            1
        } else {
            size.1
        };
        let editor_rows = repl_input_rendered_rows(
            lang,
            self.editor.input.as_str(),
            self.editor.is_pasted,
            false,
            cols,
        );
        let all = queued_prompt_lines(lang, &self.queued, self.editor.mode, cols);
        assert(texts(all@).len() == all@.len());
        let gap: u16 = if all.is_empty() {
            0
        } else {
            1
        };
        let max: u16 = rows.saturating_sub(editor_rows).saturating_sub(3);
        let queue = clip_queue(lang, all, max as usize);
        assert(texts(queue@).len() == queue@.len());
        let jobs = background_job_lines(lang, &self.jobs, self.job_spinner, cols);
        assert(texts(jobs@).len() == jobs@.len());
        let queue_rows: u16 = if queue.len() < 65535 {
            queue.len() as u16
        } else {
            65535
        };
        let job_rows: u16 = if jobs.len() < 65535 {
            jobs.len() as u16
        } else {
            65535
        };
        let total: u16 = 1u16.saturating_add(queue_rows).saturating_add(gap).saturating_add(
            editor_rows,
        ).saturating_add(job_rows);
        let anchored = self.tail_rows > 0 && self.tail_start.saturating_add(self.tail_rows) == rows
            - 1;
        let placement = live_tail_placement(output.0, output.1, total, rows, anchored);
        let ghost tail = *self;
        let ghost at = (output.0 as int, output.1 as int);
        proof {
            let shape = tail_shape(lang, tail, size.0 as int, size.1 as int);
            assert(shape.total_rows == total);
            assert(shape.queue == texts(queue@));
            assert(shape.jobs == texts(jobs@));
            assert(anchored == was_anchored(tail, size.1 as int));
        }
        let list = self.draw(lang, &queue, &jobs, placement, rows, cols);
        self.output_cursor = (output.0, placement.output_row);
        self.tail_start = placement.tail_start;
        self.tail_rows = total;
        self.rendered = true;
        list
    }

    fn draw(
        &self,
        lang: Lang,
        queue: &Vec<String>,
        jobs: &Vec<String>,
        placement: LiveTailPlacement,
        rows: u16,
        cols: usize,
    ) -> (list: Vec<TerminalOp>)
        requires
            rows >= 1,
        ensures
            ops(list@) == drawn_tail(
                lang,
                *self,
                texts(queue@),
                texts(jobs@),
                placement.tail_start as int,
                placement.overflow as int,
                cols as int,
                rows as int,
            ),
    {
        let mut list = no_ops();
        let ghost p1 = scroll_ops(placement.overflow as int, rows as int);
        if placement.overflow > 0 {
            add_one(&mut list, TerminalOp::MoveTo(0, rows - 1));
            add_feeds(&mut list, placement.overflow);
        }
        assert(ops(list@) =~= p1);
        let row = LiveReplTail::add_queue(&mut list, queue, placement.tail_start);
        let shape = InputBox {
            mode: self.editor.mode,
            input: self.editor.input.as_str(),
            cursor: self.editor.cursor,
            is_pasted: self.editor.is_pasted,
            show_shortcut_hint: false,
        };
        let columns: usize = if cols == 0 {
            1
        } else {
            cols
        };
        let (top, height) = render_repl_input_with_footer(
            &mut list,
            lang,
            &shape,
            &self.footer,
            row,
            0,
            rows,
            columns,
        );
        assert(shape@ == editor_box(*self));
        add_one(&mut list, TerminalOp::QueryInputCursor);
        LiveReplTail::add_strip(&mut list, jobs, top.saturating_add(height));
        add_one(&mut list, TerminalOp::ShowCursor);
        list
    }
}

/// The steps of drawing a tail whose parts and place are known.
pub open spec fn drawn_tail(
    lang: Lang,
    tail: LiveReplTail,
    queue: Seq<Seq<char>>,
    jobs: Seq<Seq<char>>,
    start: int,
    overflow: int,
    cols: int,
    rows: int,
) -> Seq<Op> {
    let row = box_row(queue, start);
    let height = box_height(
        lang,
        tail.editor.input@,
        tail.editor.is_pasted,
        false,
        at_least_one(cols),
    );
    let top = not_negative(row - scroll_for(row, at_least_one(height), at_least_one(rows)));
    scroll_ops(overflow, rows) + queue_ops(queue, start) + box_ops(
        lang,
        editor_box(tail),
        tail.footer,
        row,
        0,
        at_least_one(rows),
        at_least_one(cols),
    ) + seq![Op::QueryInputCursor] + strip_ops(jobs, row16(top + height)) + seq![Op::ShowCursor]
}

/// How a frame of output is fitted in above the tail.
#[derive(Clone, Copy, Debug)]
pub struct FramePlan {
    /// Where the tail starts behind the frame.
    pub next_tail: u16,
    /// By how many rows the tail moves down.
    pub shift: i32,
    /// The lowest row of the region that the frame scrolls in.
    pub bottom: Option<u16>,
    /// By how many rows the region scrolls before the frame.
    pub leading: u16,
    /// Where the frame starts.
    pub start: (u16, u16),
    /// The row of the input cursor behind the frame.
    pub input_row: u16,
}

/// The first row below everything that a frame wrote.
pub open spec fn row_below(layout: TerminalFrameLayout) -> int {
    max_of(
        row16(layout.cursor.1 + bit(layout.cursor.0 > 0)),
        match layout.occupied_bottom {
            Some(row) => row16(row + 1),
            None => 0,
        },
    )
}

/// The tail follows the output down to the bottom of the screen; the frame
/// scrolls in the region above it.
pub open spec fn is_frame_plan(
    plan: FramePlan,
    tail: LiveReplTail,
    unbounded: TerminalFrameLayout,
    rows: int,
) -> bool {
    let next = next_start(
        tail.tail_start as int,
        row_below(unbounded),
        lowest_start(at_least_one(rows), tail.tail_rows as int),
    );
    let shift = next - tail.tail_start;
    let margin = if shift < 0 {
        tail.tail_start as int
    } else {
        next
    };
    let bottom = if ends_on_free_line(unbounded) {
        Some(margin)
    } else if margin > 0 {
        Some(margin - 1)
    } else {
        None
    };
    let leading = match bottom {
        Some(b) => not_negative(tail.output_cursor.1 - b),
        None => 0,
    };
    &&& plan.next_tail == next
    &&& plan.shift == shift
    &&& match (plan.bottom, bottom) {
        (Some(a), Some(b)) => a == b,
        (None, None) => true,
        _ => false,
    }
    &&& plan.leading == leading
    &&& plan.start == match plan.bottom {
        Some(b) => if leading > 0 {
            (0u16, b)
        } else {
            tail.output_cursor
        },
        None => tail.output_cursor,
    }
    &&& plan.input_row == capped(
        not_negative(tail.input_cursor.1 + shift),
        at_least_one(rows) - 1,
    )
}

/// The steps that put a frame above the tail.
pub open spec fn frame_ops(tail: LiveReplTail, plan: FramePlan, frame: Seq<u8>) -> Seq<Op> {
    (if plan.shift > 0 {
        seq![
            Op::MoveTo(0, row16(tail.tail_start + 1)),
            Op::Print("\x1b["@ + decimal(plan.shift as nat) + "L"@),
        ]
    } else {
        Seq::empty()
    }) + (match plan.bottom {
        Some(bottom) => seq![
            Op::Print("\x1b[1;"@ + decimal(row16(bottom + 1) as nat) + "r"@),
        ] + if plan.leading > 0 {
            seq![Op::MoveTo(0, bottom as int)] + feeds(plan.leading as int)
        } else {
            Seq::empty()
        },
        None => Seq::empty(),
    }) + seq![
        Op::MoveTo(plan.start.0 as int, plan.start.1 as int),
        Op::Bytes(frame),
        Op::Print("\x1b[r"@),
    ] + (if plan.shift < 0 {
        seq![
            Op::MoveTo(0, row16(plan.next_tail + 1)),
            Op::Print("\x1b["@ + decimal((-plan.shift) as nat) + "M"@),
        ]
    } else {
        Seq::empty()
    }) + seq![Op::MoveTo(tail.input_cursor.0 as int, plan.input_row as int)]
}

/// What a frame does to a tail that is on the screen: `unbounded` is where the
/// frame would end on an endless screen, `bounded` where it ends in its region.
pub open spec fn after_frame(
    before: LiveReplTail,
    after: LiveReplTail,
    plan: FramePlan,
    unbounded: TerminalFrameLayout,
    bounded: TerminalFrameLayout,
    frame: Seq<u8>,
    columns: u16,
    rows: int,
) -> bool {
    &&& layout_of(screen_after(frame, before.output_cursor, columns, None), unbounded)
    &&& is_frame_plan(plan, before, unbounded, rows)
    &&& layout_of(screen_after(frame, plan.start, columns, plan.bottom), bounded)
    &&& after == (LiveReplTail {
        output_cursor: bounded.cursor,
        tail_start: plan.next_tail,
        input_cursor: (before.input_cursor.0, plan.input_row),
        ..before
    })
}

fn sequence(head: &str, n: u64, last: &str) -> (r: String)
    ensures
        r@ == head@ + decimal(n as nat) + last@,
{
    let mut r = head.to_owned();
    let number = decimal_text(n);
    r.append(number.as_str());
    r.append(last);
    r
}

/// A frame of output went out: as it is where no tail is drawn, else above the
/// tail, which makes room for it.
pub open spec fn framed(
    before: LiveReplTail,
    after: LiveReplTail,
    frame: Seq<u8>,
    size: (u16, u16),
    steps: Seq<TerminalOp>,
) -> bool {
    if frame.len() == 0 {
        ops(steps) == Seq::<Op>::empty() && after == before
    } else if !before.rendered {
        ops(steps) == seq![Op::Bytes(frame), Op::QueryOutputCursor] && after == before
    } else {
        exists|plan: FramePlan, unbounded: TerminalFrameLayout, bounded: TerminalFrameLayout|
            #![trigger after_frame(before, after, plan, unbounded, bounded, frame, size.0,
                size.1 as int)]
            after_frame(before, after, plan, unbounded, bounded, frame, size.0, size.1 as int)
                && ops(steps) == frame_ops(before, plan, frame)
    }
}

impl LiveReplTail {
    /// Fits a frame in above the tail, given where it would end on an endless
    /// screen.
    pub fn plan_frame(&self, unbounded: TerminalFrameLayout, terminal_rows: u16) -> (plan: FramePlan)
        ensures
            is_frame_plan(plan, *self, unbounded, terminal_rows as int),
    {
        let rows: u16 = if terminal_rows == 0 {
            1
        } else {
            terminal_rows
        };
        let natural: u16 = unbounded.cursor.1.saturating_add(
            if unbounded.cursor.0 > 0 {
                1
            } else {
                0
            },
        );
        let occupied: u16 = match unbounded.occupied_bottom {
            Some(row) => row.saturating_add(1),
            None => 0,
        };
        let desired: u16 = if natural > occupied {
            natural
        } else {
            occupied
        };
        let max_tail = max_live_tail_start(rows, self.tail_rows);
        let next_tail = live_tail_next_start(self.tail_start, desired, max_tail);
        let shift: i32 = next_tail as i32 - self.tail_start as i32;
        let margin: u16 = if shift < 0 {
            self.tail_start
        } else {
            next_tail
        };
        let bottom = live_frame_output_bottom(margin, unbounded);
        let leading: u16 = match bottom {
            Some(b) => self.output_cursor.1.saturating_sub(b),
            None => 0,
        };
        let start: (u16, u16) = match bottom {
            Some(b) => if leading > 0 {
                (0, b)
            } else {
                self.output_cursor
            },
            None => self.output_cursor,
        };
        let row: i32 = self.input_cursor.1 as i32 + shift;
        let last: i32 = rows as i32 - 1;
        let input_row: u16 = if row < 0 {
            0
        } else if row < last {
            row as u16
        } else {
            last as u16
        };
        FramePlan { next_tail, shift, bottom, leading, start, input_row }
    }

    fn frame_steps(&self, plan: FramePlan, frame: &[u8]) -> (list: Vec<TerminalOp>)
        requires
            -65535 <= plan.shift <= 65535,
        ensures
            ops(list@) == frame_ops(*self, plan, frame@),
    {
        let mut list = no_ops();
        if plan.shift > 0 {
            let insert = sequence("\x1b[", plan.shift as u64, "L");
            add_two(
                &mut list,
                TerminalOp::MoveTo(0, self.tail_start.saturating_add(1)),
                TerminalOp::Print(insert),
            );
        }
        let ghost p1 = ops(list@);
        assert(p1 =~= if plan.shift > 0 {
            seq![
                Op::MoveTo(0, row16(self.tail_start + 1)),
                Op::Print("\x1b["@ + decimal(plan.shift as nat) + "L"@),
            ]
        } else {
            Seq::empty()
        });
        if let Some(bottom) = plan.bottom {
            let region = sequence("\x1b[1;", bottom.saturating_add(1) as u64, "r");
            add_one(&mut list, TerminalOp::Print(region));
            if plan.leading > 0 {
                add_one(&mut list, TerminalOp::MoveTo(0, bottom));
                add_feeds(&mut list, plan.leading);
            }
        }
        let ghost n2 = match plan.bottom {
            Some(bottom) => seq![
                Op::Print("\x1b[1;"@ + decimal(row16(bottom + 1) as nat) + "r"@),
            ] + if plan.leading > 0 {
                seq![Op::MoveTo(0, bottom as int)] + feeds(plan.leading as int)
            } else {
                Seq::empty()
            },
            None => Seq::empty(),
        };
        assert(ops(list@) =~= p1 + n2);
        let ghost p2 = ops(list@);
        let mut bytes: Vec<u8> = Vec::new();
        bytes.extend_from_slice(frame);
        assert(bytes@ =~= frame@);
        add_two(
            &mut list,
            TerminalOp::MoveTo(plan.start.0, plan.start.1),
            TerminalOp::Bytes(bytes),
        );
        add_one(&mut list, TerminalOp::Print("\x1b[r".to_owned()));
        let ghost n3 = seq![
            Op::MoveTo(plan.start.0 as int, plan.start.1 as int),
            Op::Bytes(frame@),
            Op::Print("\x1b[r"@),
        ];
        assert(ops(list@) =~= p2 + n3);
        let ghost p3 = ops(list@);
        if plan.shift < 0 {
            let remove = sequence("\x1b[", (-plan.shift) as u64, "M");
            add_two(
                &mut list,
                TerminalOp::MoveTo(0, plan.next_tail.saturating_add(1)),
                TerminalOp::Print(remove),
            );
        }
        let ghost n4 = if plan.shift < 0 {
            seq![
                Op::MoveTo(0, row16(plan.next_tail + 1)),
                Op::Print("\x1b["@ + decimal((-plan.shift) as nat) + "M"@),
            ]
        } else {
            Seq::empty()
        };
        assert(ops(list@) =~= p3 + n4);
        add_one(&mut list, TerminalOp::MoveTo(self.input_cursor.0, plan.input_row));
        list
    }

    /// Writes a frame of output. Without a tail on the screen it is written as
    /// it is and the terminal is asked where it ended; above a tail it scrolls
    /// in the region that belongs to the output.
    pub fn apply_output_frame(&mut self, frame: &[u8], size: (u16, u16)) -> (r: Vec<TerminalOp>)
        ensures
            framed(*old(self), *final(self), frame@, size, r@),
    {
        let mut list = no_ops();
        if frame.len() == 0 {
            return list;
        }
        if !self.rendered {
            let mut bytes: Vec<u8> = Vec::new();
            bytes.extend_from_slice(frame);
            assert(bytes@ =~= frame@);
            add_two(&mut list, TerminalOp::Bytes(bytes), TerminalOp::QueryOutputCursor);
            assert(ops(list@) =~= seq![Op::Bytes(frame@), Op::QueryOutputCursor]);
            return list;
        }
        let unbounded = terminal_frame_layout(frame, self.output_cursor, size.0, None);
        let plan = self.plan_frame(unbounded, size.1);
        let bounded = terminal_frame_layout(frame, plan.start, size.0, plan.bottom);
        let list = self.frame_steps(plan, frame);
        self.output_cursor = bounded.cursor;
        self.tail_start = plan.next_tail;
        self.input_cursor = (self.input_cursor.0, plan.input_row);
        assert(after_frame(
            *old(self),
            *self,
            plan,
            unbounded,
            bounded,
            frame@,
            size.0,
            size.1 as int,
        ));
        list
    }

    /// Draws the tail anew where it is.
    pub fn redraw(&mut self, lang: Lang, size: (u16, u16)) -> (r: Vec<TerminalOp>)
        ensures
            redrawn(
                lang,
                *old(self),
                LiveReplTail { rendered: false, ..*old(self) },
                size,
                *final(self),
                ops(r@),
            ),
    {
        let output = self.output_cursor;
        let mut list = self.suspend(size.1);
        let more = self.resume_at(lang, output, size);
        add_ops(&mut list, more);
        list
    }
}

/// The tail `before` was taken off the screen and the tail `changed` was drawn
/// in its place.
pub open spec fn redrawn(
    lang: Lang,
    before: LiveReplTail,
    changed: LiveReplTail,
    size: (u16, u16),
    after: LiveReplTail,
    steps: Seq<Op>,
) -> bool {
    let output = (before.output_cursor.0 as int, before.output_cursor.1 as int);
    &&& steps == suspend_ops(before, size.1 as int) + resume_ops(
        lang,
        changed,
        output,
        size.0 as int,
        size.1 as int,
    )
    &&& resumed(lang, changed, output, size.0 as int, size.1 as int, after)
}

/// Output never reaches the tail: behind a frame that has a region to scroll
/// in, the output cursor stands in that region.
pub proof fn law_output_stays_above_tail(
    before: LiveReplTail,
    after: LiveReplTail,
    plan: FramePlan,
    unbounded: TerminalFrameLayout,
    bounded: TerminalFrameLayout,
    frame: Seq<u8>,
    columns: u16,
    rows: int,
)
    requires
        after_frame(before, after, plan, unbounded, bounded, frame, columns, rows),
    ensures
        plan.bottom matches Some(bottom) ==> after.output_cursor.1 <= bottom && bottom <= max_of(
            before.tail_start as int,
            after.tail_start as int,
        ),
        after.tail_start <= lowest_start(at_least_one(rows), before.tail_rows as int),
{
    if let Some(bottom) = plan.bottom {
        crate::frame::law_frame_stays_above_margin(frame, plan.start, columns, bottom);
    }
}

impl LiveReplTail {
    /// Replaces the footer; a tail on the screen is drawn anew at once.
    pub fn refresh_footer(&mut self, lang: Lang, footer: ReplFooterStatus, size: (u16, u16)) -> (r:
        Vec<TerminalOp>)
        ensures
            if old(self).rendered {
                exists|steps: Seq<Op>|
                    ops(r@) == #[trigger] in_update(CursorAfterUpdate::Shown, steps) && redrawn(
                        lang,
                        *old(self),
                        LiveReplTail { rendered: false, footer, ..*old(self) },
                        size,
                        *final(self),
                        steps,
                    )
            } else {
                ops(r@) == Seq::<Op>::empty() && *final(self) == (LiveReplTail {
                    footer,
                    ..*old(self)
                })
            },
    {
        self.set_footer(footer);
        if self.rendered {
            let steps = self.redraw(lang, size);
            synchronized_terminal_update(CursorAfterUpdate::Shown, steps)
        } else {
            no_ops()
        }
    }

    /// Takes over the jobs; says whether the strip has something else to show
    /// than before, be it a timer that moved on.
    pub fn set_jobs(&mut self, jobs: Vec<JobOverview>) -> (changed: bool)
        ensures
            *final(self) == (LiveReplTail { jobs, ..*old(self) }),
            changed == strip_differs(old(self).jobs@, jobs@),
    {
        let changed = jobs_differ(&self.jobs, &jobs);
        self.jobs = jobs;
        changed
    }

    /// The next frame of the spinner, drawn over the strip alone; nothing while
    /// there is no strip on the screen.
    pub fn tick_job_strip(&mut self, lang: Lang, cols: u16) -> (r: Vec<TerminalOp>)
        ensures
            ({
                let ticking = old(self).rendered && old(self).jobs@.len() > 0;
                let phase = wrapped_next(old(self).job_spinner);
                let lines = strip_lines(lang, old(self).jobs@, phase as nat, cols as int);
                let rows = row16(lines.len() as int);
                &&& *final(self) == (LiveReplTail {
                    job_spinner: if ticking {
                        phase
                    } else {
                        old(self).job_spinner
                    },
                    ..*old(self)
                })
                &&& ops(r@) == if ticking && rows <= old(self).tail_rows {
                    in_update(
                        CursorAfterUpdate::Preserve,
                        overprinted(
                            lines,
                            not_negative(row16(old(self).tail_start + old(self).tail_rows) - rows),
                            lines.len() as int,
                        ) + seq![
                            Op::MoveTo(
                                old(self).input_cursor.0 as int,
                                old(self).input_cursor.1 as int,
                            ),
                        ],
                    )
                } else {
                    Seq::<Op>::empty()
                }
            }),
    {
        let mut list = no_ops();
        if !self.rendered || self.jobs.is_empty() {
            return list;
        }
        self.job_spinner = if self.job_spinner == usize::MAX {
            0
        } else {
            self.job_spinner + 1
        };
        let lines = background_job_lines(lang, &self.jobs, self.job_spinner, cols as usize);
        assert(texts(lines@).len() == lines@.len());
        let rows: u16 = if lines.len() < 65535 {
            lines.len() as u16
        } else {
            65535
        };
        if rows > self.tail_rows {
            return list;
        }
        let start: u16 = self.tail_start.saturating_add(self.tail_rows).saturating_sub(rows);
        add_overprinted(&mut list, &lines, start);
        assert(ops(list@) =~= overprinted(texts(lines@), start as int, lines@.len() as int));
        add_one(&mut list, TerminalOp::MoveTo(self.input_cursor.0, self.input_cursor.1));
        synchronized_terminal_update(CursorAfterUpdate::Preserve, list)
    }

    /// Clears the screen and draws the tail at its top.
    pub fn clear_screen(&mut self, lang: Lang, size: (u16, u16)) -> (r: Vec<TerminalOp>)
        ensures
            ({
                let cleared = LiveReplTail {
                    rendered: false,
                    output_cursor: (0, 0),
                    tail_start: 0,
                    tail_rows: 0,
                    ..*old(self)
                };
                &&& ops(r@) == suspend_ops(*old(self), size.1 as int) + seq![
                    Op::ClearAll,
                    Op::MoveTo(0, 0),
                ] + resume_ops(lang, cleared, (0, 0), size.0 as int, size.1 as int)
                &&& resumed(lang, cleared, (0, 0), size.0 as int, size.1 as int, *final(self))
            }),
    {
        let mut list = self.suspend(size.1);
        add_two(&mut list, TerminalOp::ClearAll, TerminalOp::MoveTo(0, 0));
        self.output_cursor = (0, 0);
        self.tail_start = 0;
        self.tail_rows = 0;
        let more = self.resume_at(lang, (0, 0), size);
        add_ops(&mut list, more);
        list
    }

    pub fn append_queued(&mut self, prompt: QueuedPrompt)
        ensures
            final(self).queued@ == by_seq(old(self).queued@.push(prompt)),
            *final(self) == (LiveReplTail { queued: final(self).queued, ..*old(self) }),
    {
        let mut rest: Vec<QueuedPrompt> = Vec::new();
        std::mem::swap(&mut rest, &mut self.queued);
        rest.push(prompt);
        let ghost all = rest@;
        let mut sorted: Vec<QueuedPrompt> = Vec::new();
        let ghost mut k: int = 0;
        assert(all.take(0) =~= sorted@);
        assert(all.skip(0) =~= rest@);
        while rest.len() > 0
            invariant
                0 <= k <= all.len(),
                rest@ == all.skip(k),
                sorted@ == by_seq(all.take(k)),
            decreases rest@.len(),
        {
            let next = rest.remove(0);
            assert(next == all[k]);
            assert(rest@ =~= all.skip(k + 1));
            assert(all.take(k + 1).drop_last() =~= all.take(k));
            insert_by_seq(&mut sorted, next);
            proof {
                k = k + 1;
            }
        }
        assert(all.take(k) =~= all);
        self.queued = sorted;
    }

    /// A message goes into the queue and the tail is drawn with it.
    pub fn enqueue(&mut self, lang: Lang, prompt: QueuedPrompt, size: (u16, u16)) -> (r: Vec<
        TerminalOp,
    >)
        ensures
            final(self).queued@ == by_seq(old(self).queued@.push(prompt)),
            redrawn(
                lang,
                *old(self),
                LiveReplTail { rendered: false, queued: final(self).queued, ..*old(self) },
                size,
                *final(self),
                ops(r@),
            ),
    {
        let output = self.output_cursor;
        let mut list = self.suspend(size.1);
        self.append_queued(prompt);
        let more = self.resume_at(lang, output, size);
        add_ops(&mut list, more);
        list
    }

    /// Another queue takes the place of the old one.
    pub fn reload_queue(&mut self, lang: Lang, queued: Vec<QueuedPrompt>, size: (u16, u16)) -> (r: Vec<
        TerminalOp,
    >)
        ensures
            redrawn(
                lang,
                *old(self),
                LiveReplTail { rendered: false, queued, ..*old(self) },
                size,
                *final(self),
                ops(r@),
            ),
    {
        let output = self.output_cursor;
        let mut list = self.suspend(size.1);
        self.queued = queued;
        let more = self.resume_at(lang, output, size);
        add_ops(&mut list, more);
        list
    }

    fn any_named(&self, prompt_ids: &Vec<String>) -> (r: bool)
        ensures
            r == (exists|i: int|
                0 <= i < self.queued@.len() && texts(prompt_ids@).contains(
                    (#[trigger] self.queued@[i]).prompt_id@,
                )),
    {
        let mut i: usize = 0;
        while i < self.queued.len()
            invariant
                i <= self.queued@.len(),
                forall|k: int|
                    0 <= k < i ==> !texts(prompt_ids@).contains(
                        (#[trigger] self.queued@[k]).prompt_id@,
                    ),
            decreases self.queued@.len() - i,
        {
            if contains_name(prompt_ids, self.queued[i].prompt_id.as_str()) {
                assert(texts(prompt_ids@).contains(self.queued@[i as int].prompt_id@));
                return true;
            }
            i = i + 1;
        }
        false
    }

    /// Takes messages out of the queue that were dropped: they are not shown as
    /// sent. Nothing is drawn where none of them waits.
    pub fn drop_queued(&mut self, lang: Lang, prompt_ids: &Vec<String>, size: (u16, u16)) -> (r: Vec<
        TerminalOp,
    >)
        ensures
            final(self).queued@ == old(self).queued@.filter(not_named(texts(prompt_ids@))),
            if exists|i: int|
                0 <= i < old(self).queued@.len() && texts(prompt_ids@).contains(
                    (#[trigger] old(self).queued@[i]).prompt_id@,
                ) {
                redrawn(
                    lang,
                    *old(self),
                    LiveReplTail { rendered: false, queued: final(self).queued, ..*old(self) },
                    size,
                    *final(self),
                    ops(r@),
                )
            } else {
                ops(r@) == Seq::<Op>::empty() && *final(self) == *old(self)
            },
    {
        if !self.any_named(prompt_ids) {
            proof {
                lemma_filter_keeps_all(self.queued@, not_named(texts(prompt_ids@)));
            }
            return no_ops();
        }
        let output = self.output_cursor;
        let mut list = self.suspend(size.1);
        remove_named(&mut self.queued, prompt_ids);
        let more = self.resume_at(lang, output, size);
        add_ops(&mut list, more);
        list
    }

    pub fn queue_stream_chunk(&mut self, chunk: ChatStreamChunk)
        ensures
            chunk_views(final(self).pending_chunks@) == with_chunk(
                chunk_views(old(self).pending_chunks@),
                chunk.kind,
                chunk.text@,
            ),
            *final(self) == (LiveReplTail {
                pending_chunks: final(self).pending_chunks,
                ..*old(self)
            }),
    {
        let ghost before = self.pending_chunks@;
        let n: usize = self.pending_chunks.len();
        if n > 0 && self.pending_chunks[n - 1].kind == chunk.kind {
            let mut text = self.pending_chunks[n - 1].text.clone();
            text.append(chunk.text.as_str());
            self.pending_chunks.set(n - 1, ChatStreamChunk { kind: chunk.kind, text });
            assert(chunk_views(before).last() == (before[n - 1].kind, before[n - 1].text@));
        } else {
            self.pending_chunks.push(chunk);
            assert(n > 0 ==> chunk_views(before).last() == (
                before[n - 1].kind,
                before[n - 1].text@,
            ));
        }
        assert(chunk_views(self.pending_chunks@) =~= with_chunk(
            chunk_views(before),
            chunk.kind,
            chunk.text@,
        ));
    }

    /// Hands out the chunks that wait, in order.
    pub fn flush_pending_chunks(&mut self) -> (r: Vec<ChatStreamChunk>)
        ensures
            r == old(self).pending_chunks,
            final(self).pending_chunks@.len() == 0,
            *final(self) == (LiveReplTail {
                pending_chunks: final(self).pending_chunks,
                ..*old(self)
            }),
    {
        let mut chunks: Vec<ChatStreamChunk> = Vec::new();
        std::mem::swap(&mut chunks, &mut self.pending_chunks);
        chunks
    }

    pub fn discard_pending_chunks(&mut self)
        ensures
            final(self).pending_chunks@.len() == 0,
            *final(self) == (LiveReplTail {
                pending_chunks: final(self).pending_chunks,
                ..*old(self)
            }),
    {
        self.pending_chunks = Vec::new();
    }

    /// A submitted line leaves the editor and is written above the tail.
    pub fn commit_submission(
        &mut self,
        submission: &LiveSubmission,
        cols: usize,
        terminal_rows: u16,
    ) -> (r: Vec<TerminalOp>)
        ensures
            ops(r@) == suspend_ops(*old(self), terminal_rows as int) + committed_ops(
                seq![(submission.display_content@, old(self).editor.mode)],
                cols as int,
            ),
            *final(self) == (LiveReplTail { rendered: false, ..*old(self) }),
    {
        let mut list = self.suspend(terminal_rows);
        let ghost before = ops(list@);
        let messages = vec![(submission.display_content.as_str(), self.editor.mode)];
        write_committed_user_messages(&mut list, &messages, cols);
        assert(message_views(messages@) =~= seq![
            (submission.display_content@, self.editor.mode),
        ]);
        list
    }

    /// An empty line leaves the editor; the tail has to be shown again where
    /// the terminal says that the output then ends.
    pub fn commit_empty_submission(&mut self, cols: usize, terminal_rows: u16) -> (r: Vec<TerminalOp>)
        ensures
            ops(r@) == suspend_ops(*old(self), terminal_rows as int) + committed_ops(
                seq![(Seq::<char>::empty(), old(self).editor.mode)],
                cols as int,
            ),
            final(self).editor@ == old(self).editor@.cleared(),
            *final(self) == (LiveReplTail {
                rendered: false,
                editor: final(self).editor,
                ..*old(self)
            }),
    {
        let mode = self.editor.mode;
        let ghost tail = *self;
        self.editor.clear();
        let mut list = self.suspend(terminal_rows);
        let empty = String::new();
        let messages = vec![(empty.as_str(), mode)];
        write_committed_user_messages(&mut list, &messages, cols);
        assert(message_views(messages@) =~= seq![(Seq::<char>::empty(), mode)]);
        list
    }

    /// Messages that the reply took up leave the queue and are written above
    /// the tail, which has to be shown again where the output then ends.
    pub fn consume_queued(
        &mut self,
        prompt_ids: &Vec<String>,
        mode: AgentMode,
        cols: usize,
        terminal_rows: u16,
    ) -> (r: Vec<TerminalOp>)
        ensures
            ops(r@) == suspend_ops(*old(self), terminal_rows as int) + committed_ops(
                old(self).queued@.filter(named(texts(prompt_ids@))).map_values(
                    |p: QueuedPrompt| (p.display_content@, mode),
                ),
                cols as int,
            ),
            final(self).queued@ == old(self).queued@.filter(not_named(texts(prompt_ids@))),
            *final(self) == (LiveReplTail {
                rendered: false,
                queued: final(self).queued,
                ..*old(self)
            }),
    {
        let mut list = self.suspend(terminal_rows);
        {
            let mut messages: Vec<(&str, AgentMode)> = Vec::new();
            let ghost all = self.queued@;
            let ghost keep = named(texts(prompt_ids@));
            let ghost shown = |p: QueuedPrompt| (p.display_content@, mode);
            let mut i: usize = 0;
            proof {
                reveal(Seq::filter);
                assert(message_views(messages@) =~= all.take(0).filter(keep).map_values(shown));
            }
            while i < self.queued.len()
                invariant
                    i <= self.queued@.len(),
                    all == self.queued@,
                    keep == named(texts(prompt_ids@)),
                    shown == (|p: QueuedPrompt| (p.display_content@, mode)),
                    message_views(messages@) == all.take(i as int).filter(keep).map_values(shown),
                decreases self.queued@.len() - i,
            {
                let ghost was = message_views(messages@);
                let ghost kept = all.take(i as int).filter(keep);
                proof {
                    reveal(Seq::filter);
                    assert(all.take(i + 1).drop_last() =~= all.take(i as int));
                }
                if contains_name(prompt_ids, self.queued[i].prompt_id.as_str()) {
                    messages.push((self.queued[i].display_content.as_str(), mode));
                    assert(message_views(messages@) =~= was.push(
                        (all[i as int].display_content@, mode),
                    ));
                    assert(kept.push(all[i as int]).map_values(shown) =~= kept.map_values(
                        shown,
                    ).push((all[i as int].display_content@, mode)));
                }
                i = i + 1;
            }
            assert(all.take(all.len() as int) =~= all);
            write_committed_user_messages(&mut list, &messages, cols);
        }
        remove_named(&mut self.queued, prompt_ids);
        list
    }

    /// A report of a finished job is written above the tail: a faint headline
    /// and the lines of the reply.
    pub fn show_background_report(
        &mut self,
        report: &BackgroundReport,
        reply_lines: &Vec<String>,
        terminal_rows: u16,
    ) -> (r: Vec<TerminalOp>)
        ensures
            ops(r@) == suspend_ops(*old(self), terminal_rows as int) + report_ops(
                report.headline@,
                texts(reply_lines@),
            ),
            *final(self) == (LiveReplTail { rendered: false, ..*old(self) }),
    {
        let mut list = self.suspend(terminal_rows);
        let ghost before = ops(list@);
        let mut title = "⚙ ".to_owned();
        title.append(job_wake_headline(report.headline.as_str()));
        let mut header = dim_text(title.as_str());
        header.append("\r\n\r\n");
        add_one(&mut list, TerminalOp::Print(header));
        let ghost p1 = seq![Op::Print(dim("⚙ "@ + wake_headline(report.headline@)) + "\r\n\r\n"@)];
        let mut i: usize = 0;
        let ghost all = texts(reply_lines@);
        assert(p1 + ended_prints(all, 0) =~= p1);
        while i < reply_lines.len()
            invariant
                i <= reply_lines@.len(),
                all == texts(reply_lines@),
                ops(list@) == before + (p1 + ended_prints(all, i as int)),
            decreases reply_lines@.len() - i,
        {
            let mut line = reply_lines[i].clone();
            line.append("\r\n");
            assert(all[i as int] == reply_lines@[i as int]@);
            let ghost more = seq![Op::Print(line@)];
            add_one(&mut list, TerminalOp::Print(line));
            proof {
                lemma_assoc(before, p1 + ended_prints(all, i as int), more);
                lemma_assoc(p1, ended_prints(all, i as int), more);
            }
            i = i + 1;
        }
        let ghost p2 = p1 + ended_prints(all, all.len() as int);
        assert(all.len() == reply_lines@.len());
        add_two(&mut list, TerminalOp::Print("\r\n".to_owned()), TerminalOp::QueryOutputCursor);
        proof {
            lemma_assoc(before, p2, seq![Op::Print("\r\n"@), Op::QueryOutputCursor]);
        }
        list
    }
}

pub open spec fn wrapped_next(n: usize) -> usize {
    if n == usize::MAX {
        0
    } else {
        (n + 1) as usize
    }
}

/// The lines over what stands on the rows from `row` on.
pub open spec fn overprinted(lines: Seq<Seq<char>>, row: int, n: int) -> Seq<Op>
    decreases n,
{
    if n <= 0 {
        Seq::empty()
    } else {
        overprinted(lines, row, n - 1) + seq![
            Op::MoveTo(0, row16(row + n - 1)),
            Op::Print(lines[n - 1]),
        ]
    }
}

fn add_overprinted(list: &mut Vec<TerminalOp>, lines: &Vec<String>, row: u16)
    ensures
        ops(final(list)@) == ops(old(list)@) + overprinted(
            texts(lines@),
            row as int,
            lines@.len() as int,
        ),
{
    let ghost before = ops(list@);
    let mut i: usize = 0;
    let mut at: u16 = row;
    assert(before + overprinted(texts(lines@), row as int, 0) =~= before);
    while i < lines.len()
        invariant
            i <= lines@.len(),
            at == row16(row + i),
            ops(list@) == before + overprinted(texts(lines@), row as int, i as int),
        decreases lines@.len() - i,
    {
        let ghost done = overprinted(texts(lines@), row as int, i as int);
        assert(texts(lines@)[i as int] == lines@[i as int]@);
        add_two(list, TerminalOp::MoveTo(0, at), TerminalOp::Print(lines[i].clone()));
        proof {
            lemma_assoc(
                before,
                done,
                seq![Op::MoveTo(0, row16(row + i)), Op::Print(texts(lines@)[i as int])],
            );
        }
        at = at.saturating_add(1);
        i = i + 1;
    }
}

/// Messages written into the scrollback; nothing where there are none.
pub open spec fn committed_ops(messages: Seq<(Seq<char>, AgentMode)>, cols: int) -> Seq<Op> {
    if messages.len() == 0 {
        seq![Op::QueryOutputCursor]
    } else {
        seq![
            Op::FreshLine,
            Op::Print(committed_text(messages, true, cols)),
            Op::QueryOutputCursor,
        ]
    }
}

fn write_committed_user_messages(
    list: &mut Vec<TerminalOp>,
    messages: &Vec<(&str, AgentMode)>,
    cols: usize,
)
    ensures
        ops(final(list)@) == ops(old(list)@) + committed_ops(
            message_views(messages@),
            cols as int,
        ),
{
    let ghost before = ops(list@);
    assert(message_views(messages@).len() == messages@.len());
    if !messages.is_empty() {
        let text = committed_user_messages_text(messages, true, cols);
        add_op(list, TerminalOp::FreshLine);
        add_op(list, TerminalOp::Print(text));
    }
    add_op(list, TerminalOp::QueryOutputCursor);
    assert(ops(list@) =~= before + committed_ops(message_views(messages@), cols as int));
}

/// The first `n` lines, each ended by a carriage return and a line feed.
pub open spec fn ended_prints(lines: Seq<Seq<char>>, n: int) -> Seq<Op>
    decreases n,
{
    if n <= 0 {
        Seq::empty()
    } else {
        ended_prints(lines, n - 1) + seq![Op::Print(lines[n - 1] + "\r\n"@)]
    }
}

/// A report in the scrollback.
pub open spec fn report_ops(headline: Seq<char>, lines: Seq<Seq<char>>) -> Seq<Op> {
    seq![Op::Print(dim("⚙ "@ + wake_headline(headline)) + "\r\n\r\n"@)] + ended_prints(
        lines,
        lines.len() as int,
    ) + seq![Op::Print("\r\n"@), Op::QueryOutputCursor]
}

proof fn lemma_filter_keeps_all(v: Seq<QueuedPrompt>, keep: spec_fn(QueuedPrompt) -> bool)
    requires
        forall|i: int| 0 <= i < v.len() ==> keep(#[trigger] v[i]),
    ensures
        v.filter(keep) == v,
    decreases v.len(),
{
    reveal(Seq::filter);
    if v.len() > 0 {
        assert forall|i: int| 0 <= i < v.drop_last().len() implies keep(
            #[trigger] v.drop_last()[i],
        ) by {
            assert(v.drop_last()[i] == v[i]);
        }
        lemma_filter_keeps_all(v.drop_last(), keep);
        assert(keep(v[v.len() - 1]));
        assert(v.drop_last().push(v.last()) =~= v);
    }
}

/// Streamed text is never lost or reordered by joining chunks: the texts of one
/// kind, one behind the other, are what was streamed.
pub proof fn law_chunks_keep_text(
    v: Seq<(ChatStreamKind, Seq<char>)>,
    kind: ChatStreamKind,
    text: Seq<char>,
    of: ChatStreamKind,
)
    ensures
        streamed(with_chunk(v, kind, text), of) == if kind == of {
            streamed(v, of) + text
        } else {
            streamed(v, of)
        },
{
    let w = with_chunk(v, kind, text);
    if v.len() > 0 && v.last().0 == kind {
        assert(w.drop_last() =~= v.drop_last());
        assert(w.last() == (kind, v.last().1 + text));
        if kind == of {
            assert(streamed(v.drop_last(), of) + (v.last().1 + text) =~= streamed(v.drop_last(), of)
                + v.last().1 + text);
        }
    } else {
        assert(w.drop_last() =~= v);
    }
}

/// The text of one kind.
pub open spec fn streamed(v: Seq<(ChatStreamKind, Seq<char>)>, of: ChatStreamKind) -> Seq<char>
    decreases v.len(),
{
    if v.len() == 0 {
        Seq::empty()
    } else if v.last().0 == of {
        streamed(v.drop_last(), of) + v.last().1
    } else {
        streamed(v.drop_last(), of)
    }
}

/// Sorting the queue loses no message and adds none.
pub proof fn law_sorting_keeps_the_messages(v: Seq<QueuedPrompt>)
    ensures
        by_seq(v).to_multiset() == v.to_multiset(),
        by_seq(v).len() == v.len(),
    decreases v.len(),
{
    broadcast use vstd::seq_lib::group_to_multiset_ensures;

    if v.len() > 0 {
        law_sorting_keeps_the_messages(v.drop_last());
        lemma_insert_keeps(by_seq(v.drop_last()), v.last());
        assert(v =~= v.drop_last().push(v.last()));
    }
}

proof fn lemma_insert_keeps(v: Seq<QueuedPrompt>, p: QueuedPrompt)
    ensures
        inserted_by_seq(v, p).to_multiset() == v.push(p).to_multiset(),
        inserted_by_seq(v, p).len() == v.len() + 1,
    decreases v.len(),
{
    broadcast use vstd::seq_lib::group_to_multiset_ensures;

    if !(v.len() == 0 || v.last().seq <= p.seq) {
        let front = v.drop_last();
        lemma_insert_keeps(front, p);
        assert(v =~= front.push(v.last()));
        assert(front.push(p).push(v.last()).to_multiset() =~= front.push(v.last()).push(
            p,
        ).to_multiset());
    }
}

/// A queue that fits is shown whole. One that does not shows its last lines, in
/// as many rows as there are, the first of which says how many are hidden.
pub proof fn law_clipped_queue_shows_its_end(lang: Lang, lines: Seq<Seq<char>>, max: int, i: int)
    requires
        1 <= max,
        0 <= i < lines.len(),
    ensures
        ({
            let shown = clipped_queue(lang, lines, max);
            &&& shown.len() <= max || shown == lines
            &&& lines.len() <= max ==> shown == lines
            &&& lines.len() > max ==> shown.len() == max && shown[0] == hidden_queue_note(
                lang,
                (lines.len() - (max - 1)) as nat,
            )
            &&& lines.len() > max && i >= lines.len() - (max - 1) ==> shown[i - lines.len() + max]
                == lines[i]
        }),
{
}

/// Lines are drawn each on its own emptied row, one below the other.
pub proof fn law_lines_are_drawn_in_order(lines: Seq<Seq<char>>, row: int, i: int, n: int)
    requires
        0 <= i < n <= lines.len(),
        0 <= row,
        row + n <= 65536,
    ensures
        drawn_lines(lines, row, n).len() == 3 * n,
        drawn_lines(lines, row, n)[3 * i] == Op::MoveTo(0, row + i),
        drawn_lines(lines, row, n)[3 * i + 1] is ClearLine,
        drawn_lines(lines, row, n)[3 * i + 2] == Op::Print(lines[i]),
    decreases n,
{
    lemma_drawn_len(lines, row, n - 1);
    if i < n - 1 {
        law_lines_are_drawn_in_order(lines, row, i, n - 1);
    }
}

proof fn lemma_drawn_len(lines: Seq<Seq<char>>, row: int, n: int)
    requires
        0 <= n,
    ensures
        drawn_lines(lines, row, n).len() == 3 * n,
    decreases n,
{
    if n > 0 {
        lemma_drawn_len(lines, row, n - 1);
    }
}

/// Taking the tail off the screen leaves the cursor where the output ended; where
/// it is not on the screen nothing is done.
pub proof fn law_suspending_returns_to_the_output(
    tail: &mut LiveReplTail,
    rows: u16,
    r: Vec<TerminalOp>,
)
    requires
        call_ensures(LiveReplTail::suspend, (tail, rows), r),
    ensures
        !final(tail).rendered,
        !old(tail).rendered ==> r@.len() == 0,
        old(tail).rendered ==> ops(r@).last() == Op::MoveTo(
            old(tail).output_cursor.0 as int,
            old(tail).output_cursor.1 as int,
        ),
        old(tail).rendered && old(tail).tail_start + old(tail).tail_rows <= rows ==> ops(r@).len()
            == 2 * old(tail).tail_rows + 1,
        final(tail).queued == old(tail).queued && final(tail).editor == old(tail).editor,
{
    assert(ops(r@).len() == r@.len());
    if old(tail).rendered && old(tail).tail_start + old(tail).tail_rows <= rows {
        if old(tail).tail_rows > 0 {
            lemma_cleared_count(old(tail).tail_start as int, old(tail).tail_rows as int);
        }
    }
}

proof fn lemma_cleared_count(row: int, n: int)
    requires
        0 <= n,
    ensures
        cleared_rows(row, n).len() == 2 * n,
    decreases n,
{
    if n > 0 {
        lemma_cleared_count(row, n - 1);
    }
}

/// A frame of output goes out once, byte for byte: as it is where no tail is on
/// the screen, and in its region above the tail otherwise. No frame does nothing.
/// Queue, editor and footer stay.
pub proof fn law_frames_go_out_unchanged(
    tail: &mut LiveReplTail,
    frame: &[u8],
    size: (u16, u16),
    r: Vec<TerminalOp>,
)
    requires
        call_ensures(LiveReplTail::apply_output_frame, (tail, frame, size), r),
    ensures
        frame@.len() == 0 ==> r@.len() == 0 && *final(tail) == *old(tail),
        frame@.len() > 0 ==> ops(r@).contains(Op::Bytes(frame@)),
        frame@.len() > 0 && !old(tail).rendered ==> ops(r@) == seq![
            Op::Bytes(frame@),
            Op::QueryOutputCursor,
        ],
        final(tail).queued == old(tail).queued,
        final(tail).editor == old(tail).editor,
        final(tail).footer == old(tail).footer,
        final(tail).rendered == old(tail).rendered,
        old(tail).rendered && frame@.len() > 0 ==> final(tail).tail_rows == old(tail).tail_rows,
{
    assert(ops(r@).len() == r@.len());
    if frame@.len() > 0 && !old(tail).rendered {
        assert(ops(r@)[0] == Op::Bytes(frame@));
    }
    if frame@.len() > 0 && old(tail).rendered {
        let (plan, unbounded, bounded) = choose|
            plan: FramePlan,
            unbounded: TerminalFrameLayout,
            bounded: TerminalFrameLayout,
        |
            #![trigger after_frame(*old(tail), *final(tail), plan, unbounded, bounded, frame@, size.0,
                size.1 as int)]
            after_frame(
                *old(tail),
                *final(tail),
                plan,
                unbounded,
                bounded,
                frame@,
                size.0,
                size.1 as int,
            ) && ops(r@) == frame_ops(*old(tail), plan, frame@);
        lemma_frame_holds_bytes(*old(tail), plan, frame@);
    }
}

proof fn lemma_frame_holds_bytes(tail: LiveReplTail, plan: FramePlan, frame: Seq<u8>)
    ensures
        frame_ops(tail, plan, frame).contains(Op::Bytes(frame)),
{
    let a = if plan.shift > 0 {
        seq![
            Op::MoveTo(0, row16(tail.tail_start + 1)),
            Op::Print("\x1b["@ + decimal(plan.shift as nat) + "L"@),
        ]
    } else {
        Seq::empty()
    };
    let b = match plan.bottom {
        Some(bottom) => seq![
            Op::Print("\x1b[1;"@ + decimal(row16(bottom + 1) as nat) + "r"@),
        ] + if plan.leading > 0 {
            seq![Op::MoveTo(0, bottom as int)] + feeds(plan.leading as int)
        } else {
            Seq::empty()
        },
        None => Seq::empty(),
    };
    let k = (a + b).len() + 1;
    assert(frame_ops(tail, plan, frame)[k as int] == Op::Bytes(frame));
}

/// A drawn tail is on the screen, and the output keeps its column; nothing but
/// its place changes.
pub proof fn law_resumed_tail_is_on_the_screen(
    tail: &mut LiveReplTail,
    lang: Lang,
    output: (u16, u16),
    size: (u16, u16),
    r: Vec<TerminalOp>,
)
    requires
        call_ensures(LiveReplTail::resume_at, (tail, lang, output, size), r),
    ensures
        final(tail).rendered,
        final(tail).output_cursor.0 == output.0,
        final(tail).output_cursor.1 <= output.1,
        final(tail).tail_start >= final(tail).output_cursor.1,
        final(tail).queued == old(tail).queued,
        final(tail).editor == old(tail).editor,
        final(tail).jobs == old(tail).jobs,
        final(tail).footer == old(tail).footer,
        ops(r@).last() is ShowCursor,
{
    let shape = tail_shape(lang, *old(tail), size.0 as int, size.1 as int);
    crate::placement::law_tail_stays_below_output(
        output.0,
        output.1,
        shape.total_rows as u16,
        at_least_one(size.1 as int) as u16,
        was_anchored(*old(tail), size.1 as int),
    );
}

/// A message joins the queue, which stays in the order of the numbers; the others
/// stay.
pub proof fn law_queued_message_is_kept(tail: &mut LiveReplTail, prompt: QueuedPrompt)
    requires
        call_ensures(LiveReplTail::append_queued, (tail, prompt), ()),
    ensures
        final(tail).queued@.len() == old(tail).queued@.len() + 1,
        final(tail).queued@.to_multiset() == old(tail).queued@.to_multiset().insert(prompt),
        forall|i: int, j: int|
            0 <= i < j < final(tail).queued@.len() ==> (#[trigger] final(tail).queued@[i]).seq <= (
            #[trigger] final(tail).queued@[j]).seq,
        final(tail).editor == old(tail).editor,
{
    broadcast use vstd::seq_lib::group_to_multiset_ensures;

    law_sorting_keeps_the_messages(old(tail).queued@.push(prompt));
    law_queue_is_in_order(old(tail).queued@.push(prompt));
}

/// The messages that were taken up leave the queue, and only they do.
pub proof fn law_only_named_messages_leave(
    tail: &mut LiveReplTail,
    ids: &Vec<String>,
    mode: AgentMode,
    cols: usize,
    rows: u16,
    r: Vec<TerminalOp>,
    p: QueuedPrompt,
)
    requires
        call_ensures(LiveReplTail::consume_queued, (tail, ids, mode, cols, rows), r),
    ensures
        final(tail).queued@.contains(p) <==> old(tail).queued@.contains(p) && !texts(
            ids@,
        ).contains(p.prompt_id@),
        !final(tail).rendered,
        final(tail).editor == old(tail).editor,
{
    broadcast use vstd::seq_lib::group_filter_ensures;

    let keep = not_named(texts(ids@));
    let all = old(tail).queued@;
    if all.filter(keep).contains(p) {
        let i = choose|i: int| 0 <= i < all.filter(keep).len() && all.filter(keep)[i] == p;
        assert(keep(p));
        all.lemma_filter_contains_rev(keep, p);
    }
    if all.contains(p) && !texts(ids@).contains(p.prompt_id@) {
        assert(keep(p));
        let i = choose|i: int| 0 <= i < all.len() && all[i] == p;
        assert(all.filter(keep).contains(all[i]));
    }
}

/// The same of messages that were dropped; where none of them waits, nothing is
/// drawn.
pub proof fn law_only_dropped_messages_leave(
    tail: &mut LiveReplTail,
    lang: Lang,
    ids: &Vec<String>,
    size: (u16, u16),
    r: Vec<TerminalOp>,
    p: QueuedPrompt,
)
    requires
        call_ensures(LiveReplTail::drop_queued, (tail, lang, ids, size), r),
    ensures
        final(tail).queued@.contains(p) <==> old(tail).queued@.contains(p) && !texts(
            ids@,
        ).contains(p.prompt_id@),
        (forall|i: int|
            0 <= i < old(tail).queued@.len() ==> !texts(ids@).contains(
                (#[trigger] old(tail).queued@[i]).prompt_id@,
            )) ==> r@.len() == 0,
{
    broadcast use vstd::seq_lib::group_filter_ensures;

    assert(ops(r@).len() == r@.len());
    let keep = not_named(texts(ids@));
    let all = old(tail).queued@;
    if all.filter(keep).contains(p) {
        let i = choose|i: int| 0 <= i < all.filter(keep).len() && all.filter(keep)[i] == p;
        assert(keep(p));
        all.lemma_filter_contains_rev(keep, p);
    }
    if all.contains(p) && !texts(ids@).contains(p.prompt_id@) {
        assert(keep(p));
        let i = choose|i: int| 0 <= i < all.len() && all[i] == p;
        assert(all.filter(keep).contains(all[i]));
    }
}

/// Chunks that wait are handed out once, in their order; dropped ones are gone.
pub proof fn law_chunks_are_handed_out_once(tail: &mut LiveReplTail, r: Vec<ChatStreamChunk>)
    requires
        call_ensures(LiveReplTail::flush_pending_chunks, (tail,), r),
    ensures
        r == old(tail).pending_chunks,
        final(tail).pending_chunks@.len() == 0,
        final(tail).queued == old(tail).queued,
{
}

/// A submitted line is written as it is shown, above the tail, which leaves the
/// screen for it.
pub proof fn law_submitted_line_is_written(
    tail: &mut LiveReplTail,
    submission: &LiveSubmission,
    cols: usize,
    rows: u16,
    r: Vec<TerminalOp>,
)
    requires
        call_ensures(LiveReplTail::commit_submission, (tail, submission, cols, rows), r),
    ensures
        !final(tail).rendered,
        ops(r@).len() >= 3,
        ops(r@)[ops(r@).len() - 1] is QueryOutputCursor,
        ops(r@)[ops(r@).len() - 2] == Op::Print(
            committed_text(
                seq![(submission.display_content@, old(tail).editor.mode)],
                true,
                cols as int,
            ),
        ),
        ops(r@)[ops(r@).len() - 3] is FreshLine,
        final(tail).queued == old(tail).queued,
{
}

/// The spinner moves on by one frame while a strip is on the screen, and stands
/// otherwise.
pub proof fn law_spinner_moves_on(tail: &mut LiveReplTail, lang: Lang, cols: u16, r: Vec<TerminalOp>)
    requires
        call_ensures(LiveReplTail::tick_job_strip, (tail, lang, cols), r),
        old(tail).job_spinner < usize::MAX,
    ensures
        old(tail).rendered && old(tail).jobs@.len() > 0 ==> final(tail).job_spinner == old(tail).job_spinner + 1,
        !old(tail).rendered || old(tail).jobs@.len() == 0 ==> final(tail).job_spinner == old(tail).job_spinner && r@.len() == 0,
        final(tail).editor == old(tail).editor && final(tail).tail_start == old(tail).tail_start,
{
    assert(ops(r@).len() == r@.len());
}

/// A new tail has an empty line, its queue and footer, and is not yet on the
/// screen.
pub proof fn law_new_tail_is_off_the_screen(
    mode: AgentMode,
    history: Vec<String>,
    queued: Vec<QueuedPrompt>,
    footer: ReplFooterStatus,
    output: (u16, u16),
    r: LiveReplTail,
)
    requires
        call_ensures(LiveReplTail::new, (mode, history, queued, footer, output), r),
    ensures
        !r.rendered && !r.external_output_active,
        r.editor.mode == mode && r.editor.input@.len() == 0,
        r.queued == queued && r.footer == footer && r.output_cursor == output,
{
    assert(r.editor@.input == r.editor.input@);
    assert(r.editor@.mode == r.editor.mode);
}

/// Clearing the screen draws the tail at the top and keeps what is typed and
/// queued.
pub proof fn law_cleared_screen_keeps_the_draft(
    tail: &mut LiveReplTail,
    lang: Lang,
    size: (u16, u16),
    r: Vec<TerminalOp>,
)
    requires
        call_ensures(LiveReplTail::clear_screen, (tail, lang, size), r),
    ensures
        ops(r@).contains(Op::ClearAll),
        final(tail).rendered,
        final(tail).output_cursor == (0u16, 0u16),
        final(tail).editor == old(tail).editor && final(tail).queued == old(tail).queued,
{
    let a = suspend_ops(*old(tail), size.1 as int);
    assert(ops(r@)[a.len() as int] == Op::ClearAll);
}

} // verus!
