//! What is to be done to the terminal, as a list of steps.
use vstd::prelude::*;

verus! {

/// A step of drawing.
#[derive(Debug)]
pub enum TerminalOp {
    MoveTo(u16, u16),
    ClearLine,
    ClearAll,
    Print(String),
    Bytes(Vec<u8>),
    ShowCursor,
    HideCursor,
    /// What follows is shown all at once, at the end of the update.
    BeginUpdate,
    EndUpdate,
    /// Begin a new line unless the cursor is at the start of one.
    FreshLine,
    /// Ask the terminal for the cursor and remember it as that of the input.
    QueryInputCursor,
    /// Move to the remembered cursor of the input.
    MoveToInputCursor,
    /// Ask the terminal for the cursor and remember it as that of the output.
    QueryOutputCursor,
}

/// A step, with its texts as sequences.
pub enum Op {
    MoveTo(int, int),
    ClearLine,
    ClearAll,
    Print(Seq<char>),
    Bytes(Seq<u8>),
    ShowCursor,
    HideCursor,
    BeginUpdate,
    EndUpdate,
    FreshLine,
    QueryInputCursor,
    MoveToInputCursor,
    QueryOutputCursor,
}

impl View for TerminalOp {
    type V = Op;

    open spec fn view(&self) -> Op {
        match self {
            TerminalOp::MoveTo(x, y) => Op::MoveTo(*x as int, *y as int),
            TerminalOp::ClearLine => Op::ClearLine,
            TerminalOp::ClearAll => Op::ClearAll,
            TerminalOp::Print(s) => Op::Print(s@),
            TerminalOp::Bytes(b) => Op::Bytes(b@),
            TerminalOp::ShowCursor => Op::ShowCursor,
            TerminalOp::HideCursor => Op::HideCursor,
            TerminalOp::BeginUpdate => Op::BeginUpdate,
            TerminalOp::EndUpdate => Op::EndUpdate,
            TerminalOp::FreshLine => Op::FreshLine,
            TerminalOp::QueryInputCursor => Op::QueryInputCursor,
            TerminalOp::MoveToInputCursor => Op::MoveToInputCursor,
            TerminalOp::QueryOutputCursor => Op::QueryOutputCursor,
        }
    }
}

/// The steps of a list.
pub open spec fn ops(v: Seq<TerminalOp>) -> Seq<Op> {
    v.map_values(|o: TerminalOp| o@)
}

/// Adds a step to a list.
pub fn add_op(list: &mut Vec<TerminalOp>, op: TerminalOp)
    ensures
        ops(final(list)@) == ops(old(list)@).push(op@),
{
    let ghost before = list@;
    list.push(op);
    assert(ops(list@) =~= ops(before).push(op@));
}

/// Adds the steps of one list to another.
pub fn add_ops(list: &mut Vec<TerminalOp>, more: Vec<TerminalOp>)
    ensures
        ops(final(list)@) == ops(old(list)@) + ops(more@),
{
    let ghost before = list@;
    let mut more = more;
    let ghost added = more@;
    list.append(&mut more);
    assert(ops(list@) =~= ops(before) + ops(added));
}

/// Adds two steps to a list.
pub fn add_two(list: &mut Vec<TerminalOp>, first: TerminalOp, second: TerminalOp)
    ensures
        ops(final(list)@) == ops(old(list)@) + seq![first@, second@],
{
    let ghost before = ops(list@);
    add_op(list, first);
    add_op(list, second);
    assert(ops(list@) =~= before + seq![first@, second@]);
}

/// Adds one step to a list.
pub fn add_one(list: &mut Vec<TerminalOp>, op: TerminalOp)
    ensures
        ops(final(list)@) == ops(old(list)@) + seq![op@],
{
    let ghost before = ops(list@);
    add_op(list, op);
    assert(ops(list@) =~= before + seq![op@]);
}

pub proof fn lemma_assoc(a: Seq<Op>, b: Seq<Op>, c: Seq<Op>)
    ensures
        (a + b) + c == a + (b + c),
{
    assert((a + b) + c =~= a + (b + c));
}

/// An empty list of steps.
pub fn no_ops() -> (r: Vec<TerminalOp>)
    ensures
        ops(r@) == Seq::<Op>::empty(),
{
    let r: Vec<TerminalOp> = Vec::new();
    assert(ops(r@) =~= Seq::empty());
    r
}

/// What becomes of the cursor in an update of the screen.
#[derive(Clone, Copy, Debug, PartialEq, Eq, Structural)]
pub enum CursorAfterUpdate {
    /// It stays as it is.
    Preserve,
    /// It is hidden meanwhile and shown at the end.
    Shown,
    /// It is hidden, and stays so.
    Hidden,
}

/// The steps that an update of the screen begins with.
pub open spec fn update_begin(cursor: CursorAfterUpdate) -> Seq<Op> {
    match cursor {
        CursorAfterUpdate::Preserve => seq![Op::BeginUpdate],
        _ => seq![Op::HideCursor, Op::BeginUpdate],
    }
}

/// The steps that it ends with.
pub open spec fn update_end(cursor: CursorAfterUpdate) -> Seq<Op> {
    match cursor {
        CursorAfterUpdate::Shown => seq![Op::EndUpdate, Op::ShowCursor],
        _ => seq![Op::EndUpdate],
    }
}

/// Steps made one update of the screen.
pub open spec fn in_update(cursor: CursorAfterUpdate, steps: Seq<Op>) -> Seq<Op> {
    update_begin(cursor) + steps + update_end(cursor)
}

pub fn synchronized_terminal_update(cursor: CursorAfterUpdate, steps: Vec<TerminalOp>) -> (r: Vec<
    TerminalOp,
>)
    ensures
        ops(r@) == in_update(cursor, ops(steps@)),
{
    let mut list = no_ops();
    match cursor {
        CursorAfterUpdate::Preserve => add_one(&mut list, TerminalOp::BeginUpdate),
        _ => add_two(&mut list, TerminalOp::HideCursor, TerminalOp::BeginUpdate),
    }
    assert(ops(list@) =~= update_begin(cursor));
    add_ops(&mut list, steps);
    match cursor {
        CursorAfterUpdate::Shown => add_two(
            &mut list,
            TerminalOp::EndUpdate,
            TerminalOp::ShowCursor,
        ),
        _ => add_one(&mut list, TerminalOp::EndUpdate),
    }
    list
}

/// An update is shown all at once: its steps stand between a begin and an end, in
/// their order. A cursor to be shown is hidden before and shown behind; one to be
/// hidden is hidden and not shown again.
pub proof fn law_updates_are_wrapped(cursor: CursorAfterUpdate, steps: Vec<TerminalOp>, r: Vec<TerminalOp>)
    requires
        call_ensures(synchronized_terminal_update, (cursor, steps), r),
    ensures
        ({
            let did = ops(r@);
            let at = if cursor is Preserve {
                1int
            } else {
                2int
            };
            let n = steps@.len() as int;
            &&& did[at - 1] is BeginUpdate
            &&& did.subrange(at, at + n) == ops(steps@)
            &&& did[at + n] is EndUpdate
            &&& cursor is Preserve ==> did.len() == n + 2
            &&& cursor is Shown ==> did[0] is HideCursor && did.len() == n + 4 && did.last()
                is ShowCursor
            &&& cursor is Hidden ==> did[0] is HideCursor && did.len() == n + 3
        }),
{
    let did = ops(r@);
    let at = if cursor is Preserve {
        1int
    } else {
        2int
    };
    let n = steps@.len() as int;
    assert(ops(steps@).len() == n);
    assert(did == update_begin(cursor) + ops(steps@) + update_end(cursor));
    assert(did.subrange(at, at + n) =~= ops(steps@));
    assert(did[at + n] == update_end(cursor)[0]);
}

} // verus!
