//! Where the live tail (queue, input box, footer and job strip) stands below
//! the output.
use crate::frame::TerminalFrameLayout;
use crate::layout::{at_least_one, capped, not_negative};
use vstd::prelude::*;

verus! {

#[derive(Clone, Copy, Debug, PartialEq, Eq, Structural)]
pub struct LiveTailPlacement {
    pub output_row: u16,
    pub tail_start: u16,
    pub overflow: u16,
    pub anchored: bool,
}

/// Row numbers stop at the largest one.
pub open spec fn row16(n: int) -> int {
    capped(n, 65535)
}

/// The last row that the tail may use: the one above the bottom row.
pub open spec fn last_usable_row(terminal_rows: int) -> int {
    not_negative(at_least_one(terminal_rows) - 2)
}

pub open spec fn bit(b: bool) -> int {
    if b {
        1
    } else {
        0
    }
}

pub open spec fn max_of(a: int, b: int) -> int {
    if a > b {
        a
    } else {
        b
    }
}

/// By how many rows the screen has to scroll before the tail fits.
pub open spec fn overflow_rows(
    output_col: int,
    output_row: int,
    total_rows: int,
    terminal_rows: int,
) -> int {
    let start = row16(output_row + bit(output_col > 0));
    let end = row16(start + not_negative(total_rows - 1));
    not_negative(end - last_usable_row(terminal_rows))
}

/// The placement of a tail of `total_rows` rows below an output that ended at
/// `output_row`: right below it, the screen scrolled where that is too far down.
/// A tail that reached the bottom, or was there before, stays at the bottom.
pub open spec fn placement_of(
    output_col: int,
    output_row: int,
    total_rows: int,
    terminal_rows: int,
    was_anchored: bool,
) -> (int, int, int, bool) {
    let last = last_usable_row(terminal_rows);
    let overflow = overflow_rows(output_col, output_row, total_rows, terminal_rows);
    let end = row16(row16(output_row + bit(output_col > 0)) + not_negative(total_rows - 1));
    let row = not_negative(output_row - overflow);
    let below = row16(row + bit(output_col > 0));
    let anchored = was_anchored || overflow > 0 || end == last;
    let start = if anchored {
        max_of(below, not_negative(row16(last + 1) - total_rows))
    } else {
        below
    };
    (row, start, overflow, anchored)
}

pub fn live_tail_placement(
    output_col: u16,
    output_row: u16,
    total_rows: u16,
    terminal_rows: u16,
    was_anchored: bool,
) -> (r: LiveTailPlacement)
    ensures
        (r.output_row as int, r.tail_start as int, r.overflow as int, r.anchored) == placement_of(
            output_col as int,
            output_row as int,
            total_rows as int,
            terminal_rows as int,
            was_anchored,
        ),
{
    let rows: u16 = if terminal_rows == 0 {
        1
    } else {
        terminal_rows
    };
    let last_row: u16 = rows.saturating_sub(2);
    let shift: u16 = if output_col > 0 {
        1
    } else {
        0
    };
    let natural_start: u16 = output_row.saturating_add(shift);
    let natural_end: u16 = natural_start.saturating_add(total_rows.saturating_sub(1));
    let overflow: u16 = natural_end.saturating_sub(last_row);
    let output_row: u16 = output_row.saturating_sub(overflow);
    let natural_start: u16 = output_row.saturating_add(shift);
    let anchored = was_anchored || overflow > 0 || natural_end == last_row;
    let anchored_start: u16 = last_row.saturating_add(1).saturating_sub(total_rows);
    let tail_start: u16 = if anchored && anchored_start > natural_start {
        anchored_start
    } else {
        natural_start
    };
    LiveTailPlacement { output_row, tail_start, overflow, anchored }
}

/// The tail never covers the output above it.
pub proof fn law_tail_stays_below_output(
    output_col: u16,
    output_row: u16,
    total_rows: u16,
    terminal_rows: u16,
    was_anchored: bool,
)
    ensures
        ({
            let (row, start, overflow, anchored) = placement_of(
                output_col as int,
                output_row as int,
                total_rows as int,
                terminal_rows as int,
                was_anchored,
            );
            &&& start >= row
            &&& output_col > 0 && row < 65535 ==> start > row
            &&& row + overflow == output_row || row == 0
        }),
{
}

/// A tail at the bottom ends on the last usable row, however it shrank or grew,
/// wherever it fits on the screen at all.
pub proof fn law_anchored_tail_ends_on_last_row(
    output_col: u16,
    output_row: u16,
    total_rows: u16,
    terminal_rows: u16,
    was_anchored: bool,
)
    requires
        terminal_rows >= 2,
        1 <= total_rows,
        total_rows + bit(output_col > 0) <= last_usable_row(terminal_rows as int) + 1,
        output_row + 1 + total_rows <= 65535,
    ensures
        ({
            let (row, start, overflow, anchored) = placement_of(
                output_col as int,
                output_row as int,
                total_rows as int,
                terminal_rows as int,
                was_anchored,
            );
            &&& anchored ==> start + total_rows == last_usable_row(terminal_rows as int) + 1
            &&& !anchored ==> start + total_rows <= last_usable_row(terminal_rows as int)
            &&& !anchored ==> overflow == 0 && row == output_row
        }),
{
}

/// A tail that was at the bottom stays there.
pub proof fn law_anchor_is_kept(
    output_col: u16,
    output_row: u16,
    total_rows: u16,
    terminal_rows: u16,
)
    ensures
        placement_of(
            output_col as int,
            output_row as int,
            total_rows as int,
            terminal_rows as int,
            true,
        ).3,
{
}

/// Where a frame of output leaves the tail: it follows the output down, and
/// once at the bottom it stays there.
pub open spec fn next_start(current_start: int, desired_tail: int, max_tail: int) -> int {
    if current_start >= max_tail {
        max_tail
    } else {
        capped(desired_tail, max_tail)
    }
}

pub fn live_tail_next_start(current_start: u16, desired_tail: u16, max_tail: u16) -> (r: u16)
    ensures
        r == next_start(current_start as int, desired_tail as int, max_tail as int),
        r <= max_tail,
{
    if current_start >= max_tail {
        max_tail
    } else if desired_tail < max_tail {
        desired_tail
    } else {
        max_tail
    }
}

/// Streaming output never drags a tail at the bottom back up, and never pushes
/// one past it.
pub proof fn law_output_keeps_anchored_tail(current_start: int, desired_tail: int, max_tail: int)
    ensures
        next_start(current_start, desired_tail, max_tail) <= max_tail,
        current_start >= max_tail ==> next_start(current_start, desired_tail, max_tail) == max_tail,
        next_start(next_start(max_tail, desired_tail, max_tail), desired_tail, max_tail)
            == max_tail,
{
}

/// The lowest row that a tail of `tail_rows` rows can start on.
pub open spec fn lowest_start(terminal_rows: int, tail_rows: int) -> int {
    not_negative(at_least_one(terminal_rows) - 1 - tail_rows)
}

pub fn max_live_tail_start(terminal_rows: u16, tail_rows: u16) -> (r: u16)
    ensures
        r == lowest_start(terminal_rows as int, tail_rows as int),
{
    let rows: u16 = if terminal_rows == 0 {
        1
    } else {
        terminal_rows
    };
    rows.saturating_sub(1).saturating_sub(tail_rows)
}

/// Whether a frame ends on a line that nothing is written on.
pub open spec fn ends_on_free_line(layout: TerminalFrameLayout) -> bool {
    layout.cursor.0 == 0 && match layout.occupied_bottom {
        Some(bottom) => layout.cursor.1 > bottom,
        None => true,
    }
}

/// The lowest row that a frame may write on: the gap above the tail belongs to
/// it only where the frame ends with a line feed.
pub fn live_frame_output_bottom(frame_margin: u16, layout: TerminalFrameLayout) -> (r: Option<u16>)
    ensures
        r == if ends_on_free_line(layout) {
            Some(frame_margin)
        } else if frame_margin > 0 {
            Some((frame_margin - 1) as u16)
        } else {
            None
        },
{
    let free = layout.cursor.0 == 0 && match layout.occupied_bottom {
        Some(bottom) => layout.cursor.1 > bottom,
        None => true,
    };
    if free {
        Some(frame_margin)
    } else if frame_margin > 0 {
        Some(frame_margin - 1)
    } else {
        None
    }
}

/// Where there is room, the tail starts on the row of the output where that is
/// free and on the one below it otherwise, and nothing scrolls.
pub proof fn law_tail_starts_right_below_the_output(
    output_col: u16,
    output_row: u16,
    total_rows: u16,
    terminal_rows: u16,
    r: LiveTailPlacement,
)
    requires
        call_ensures(
            live_tail_placement,
            (output_col, output_row, total_rows, terminal_rows, false),
            r,
        ),
        total_rows >= 1,
        output_row + 1 + total_rows < terminal_rows - 1,
    ensures
        r.output_row == output_row,
        r.overflow == 0,
        !r.anchored,
        output_col == 0 ==> r.tail_start == output_row,
        output_col > 0 ==> r.tail_start == output_row + 1,
{
}

/// Where the tail does not fit below the output, the screen scrolls by just the
/// rows that it lacks, and the output moves up with it.
pub proof fn law_screen_scrolls_by_what_is_lacking(
    output_col: u16,
    output_row: u16,
    total_rows: u16,
    terminal_rows: u16,
    was_anchored: bool,
    r: LiveTailPlacement,
)
    requires
        call_ensures(
            live_tail_placement,
            (output_col, output_row, total_rows, terminal_rows, was_anchored),
            r,
        ),
        terminal_rows >= 2,
        1 <= total_rows <= terminal_rows - 2,
        output_row < terminal_rows,
        output_row + 1 + total_rows <= 65535,
    ensures
        ({
            let first = if output_col > 0 {
                output_row + 1
            } else {
                output_row as int
            };
            let lacking = first + total_rows - (terminal_rows - 1);
            &&& lacking <= 0 ==> r.overflow == 0 && r.output_row == output_row
            &&& lacking > 0 ==> r.overflow == lacking && r.anchored && r.output_row + lacking
                == output_row
            &&& r.tail_start + total_rows <= terminal_rows - 1
        }),
{
}

/// The tail follows the output down and stops where it just fits.
pub proof fn law_tail_follows_the_output(current: u16, wanted: u16, lowest: u16, r: u16)
    requires
        call_ensures(live_tail_next_start, (current, wanted, lowest), r),
    ensures
        current < lowest && wanted <= lowest ==> r == wanted,
        current < lowest && wanted > lowest ==> r == lowest,
        current >= lowest ==> r == lowest,
{
}

/// A tail that starts as low as it can leaves exactly the bottom row free.
pub proof fn law_lowest_tail_leaves_one_row(terminal_rows: u16, tail_rows: u16, r: u16)
    requires
        call_ensures(max_live_tail_start, (terminal_rows, tail_rows), r),
    ensures
        tail_rows < terminal_rows ==> r + tail_rows == terminal_rows - 1,
        tail_rows >= terminal_rows ==> r == 0,
{
}

/// A frame that ends with a free line may write up to the margin; any other stops
/// one row above it.
pub proof fn law_frames_leave_a_gap(margin: u16, layout: TerminalFrameLayout, r: Option<u16>)
    requires
        call_ensures(live_frame_output_bottom, (margin, layout), r),
    ensures
        layout.cursor.0 > 0 && margin > 0 ==> r == Some((margin - 1) as u16),
        layout.cursor.0 > 0 && margin == 0 ==> r is None,
        layout.cursor.0 == 0 && layout.occupied_bottom is None ==> r == Some(margin),
        layout.cursor.0 == 0 && layout.occupied_bottom is Some && layout.occupied_bottom->0
            < layout.cursor.1 ==> r == Some(margin),
        layout.cursor.0 == 0 && layout.occupied_bottom is Some && layout.occupied_bottom->0
            >= layout.cursor.1 && margin > 0 ==> r == Some((margin - 1) as u16),
{
}

} // verus!
