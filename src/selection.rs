//! Moving the active cell and growing the selection.
use vstd::prelude::*;

use crate::reference::{far, first_col, first_row, last_col, last_row, Address, Range};
use crate::update::Motion;

verus! {

/// The greatest index of a table dimension with `count` entries (0 when
/// there are none).
pub open spec fn max_index(count: usize) -> usize {
    if count == 0 { 0 } else { (count - 1) as usize }
}

pub open spec fn min_u(a: usize, b: usize) -> usize {
    if a <= b { a } else { b }
}

pub open spec fn sat_inc(a: usize) -> usize {
    if a == usize::MAX { a } else { (a + 1) as usize }
}

pub open spec fn sat_dec(a: usize) -> usize {
    if a == 0 { 0 } else { (a - 1) as usize }
}

/// The cell after the start of a multi-cell selection `r`, going along its
/// row and wrapping at the rectangle's right edge to the next row, and from
/// its last cell to its first.
pub open spec fn forward_cell(r: Range) -> (usize, usize) {
    let next_col = if r.start.x >= last_col(r) { first_col(r) } else { (r.start.x + 1) as usize };
    let next_row = if next_col == first_col(r) { sat_inc(r.start.y) } else { r.start.y };
    let wrapped_row = if next_row > last_row(r) { first_row(r) } else { next_row };
    (next_col, wrapped_row)
}

/// The cell before the start of a multi-cell selection `r`, the reverse of
/// [`forward_cell`].
pub open spec fn back_cell(r: Range) -> (usize, usize) {
    let prev_col = if r.start.x == first_col(r) { last_col(r) } else { sat_dec(r.start.x) };
    let prev_row = if prev_col == last_col(r) && r.start.y == first_row(r) {
        last_row(r)
    } else if prev_col == last_col(r) {
        sat_dec(r.start.y)
    } else {
        r.start.y
    };
    let wrapped_row = if prev_row < first_row(r) { last_row(r) } else { prev_row };
    (prev_col, wrapped_row)
}

/// The single cell that the active cell moves to under `motion`, in a table
/// of `rows` rows and `cols` columns, clamped to the table. Forward and
/// Back step through a multi-cell selection; on a single cell they step
/// right and left. Home and End go to the first and last column of the
/// active cell's row.
pub open spec fn moved_cell(sel: Range, motion: Motion, rows: usize, cols: usize) -> Address {
    let max_col = max_index(cols);
    let max_row = max_index(rows);
    let x = sel.start.x;
    let y = sel.start.y;
    let m = match motion {
        Motion::Forward => if sel.end is None { Motion::Right } else { Motion::Forward },
        Motion::Back => if sel.end is None { Motion::Left } else { Motion::Back },
        _ => motion,
    };
    match m {
        Motion::Forward => Address {
            x: min_u(forward_cell(sel).0, max_col),
            y: min_u(forward_cell(sel).1, max_row),
        },
        Motion::Back => Address {
            x: min_u(back_cell(sel).0, max_col),
            y: min_u(back_cell(sel).1, max_row),
        },
        Motion::Up => Address { x: min_u(x, max_col), y: min_u(sat_dec(y), max_row) },
        Motion::Down => Address { x: min_u(x, max_col), y: min_u(sat_inc(y), max_row) },
        Motion::Right => Address { x: min_u(sat_inc(x), max_col), y: min_u(y, max_row) },
        Motion::Left => Address { x: min_u(sat_dec(x), max_col), y: min_u(y, max_row) },
        Motion::Home => Address { x: 0, y: min_u(y, max_row) },
        Motion::End => Address { x: max_col, y: min_u(y, max_row) },
        Motion::DocumentStart => Address { x: 0, y: 0 },
        Motion::DocumentEnd => Address { x: max_col, y: max_row },
    }
}

/// `v` moved by one step back (`dir < 0`), forward (`dir > 0`) or not at
/// all, then clamped to `[0, max]`.
pub open spec fn step_clamped(v: usize, dir: int, max: usize) -> usize {
    let n = v + dir;
    if n < 0 {
        0
    } else if n > max {
        max
    } else {
        n as usize
    }
}

/// The selection `sel` with its end moved one cell along the axis of a
/// directional `motion`, clamped to the table; other motions leave it as
/// it is.
pub open spec fn expanded(sel: Range, motion: Motion, rows: usize, cols: usize) -> Range {
    let (dx, dy) = match motion {
        Motion::Left => (-1int, 0int),
        Motion::Right => (1int, 0int),
        Motion::Up => (0int, -1int),
        Motion::Down => (0int, 1int),
        _ => (0int, 0int),
    };
    match motion {
        Motion::Left | Motion::Right | Motion::Up | Motion::Down => Range {
            start: sel.start,
            end: Some(
                Address {
                    x: step_clamped(far(sel).x, dx, max_index(cols)),
                    y: step_clamped(far(sel).y, dy, max_index(rows)),
                },
            ),
        },
        _ => sel,
    }
}

fn max_of(count: usize) -> (r: usize)
    ensures
        r == max_index(count),
{
    if count == 0 { 0 } else { count - 1 }
}

fn min_of(a: usize, b: usize) -> (r: usize)
    ensures
        r == min_u(a, b),
{
    if a <= b { a } else { b }
}

/// The selection after moving the active cell by `motion` in a table of
/// `row_count` rows and `column_count` columns: always a single cell.
pub fn move_selection(selection: &Range, motion: Motion, row_count: usize, column_count: usize) -> (r: Range)
    ensures
        r == (Range { start: moved_cell(*selection, motion, row_count, column_count), end: None }),
{
    let sel = *selection;
    let (start_col, start_row) = (sel.start.x, sel.start.y);
    let end = match sel.end {
        Some(e) => e,
        None => sel.start,
    };
    let (end_col, end_row) = (end.x, end.y);
    let first_col = min_of(start_col, end_col);
    let first_row = min_of(start_row, end_row);
    let last_col = if start_col <= end_col { end_col } else { start_col };
    let last_row = if start_row <= end_row { end_row } else { start_row };
    let max_col = max_of(column_count);
    let max_row = max_of(row_count);

    let motion = match motion {
        Motion::Forward => if sel.end.is_none() { Motion::Right } else { Motion::Forward },
        Motion::Back => if sel.end.is_none() { Motion::Left } else { Motion::Back },
        _ => motion,
    };

    let new_cell = match motion {
        Motion::Forward => {
            let next_col = if start_col >= last_col { first_col } else { start_col + 1 };
            let next_row = if next_col == first_col { start_row.saturating_add(1) } else { start_row };
            let wrapped_row = if next_row > last_row { first_row } else { next_row };
            Address { x: min_of(next_col, max_col), y: min_of(wrapped_row, max_row) }
        },
        Motion::Back => {
            let prev_col = if start_col == first_col { last_col } else { start_col.saturating_sub(1) };
            let prev_row = if prev_col == last_col && start_row == first_row {
                last_row
            } else if prev_col == last_col {
                start_row.saturating_sub(1)
            } else {
                start_row
            };
            let wrapped_row = if prev_row < first_row { last_row } else { prev_row };
            Address { x: min_of(prev_col, max_col), y: min_of(wrapped_row, max_row) }
        },
        Motion::Up => Address {
            x: min_of(start_col, max_col),
            y: min_of(start_row.saturating_sub(1), max_row),
        },
        Motion::Down => Address {
            x: min_of(start_col, max_col),
            y: min_of(start_row.saturating_add(1), max_row),
        },
        Motion::Right => Address {
            x: min_of(start_col.saturating_add(1), max_col),
            y: min_of(start_row, max_row),
        },
        Motion::Left => Address {
            x: min_of(start_col.saturating_sub(1), max_col),
            y: min_of(start_row, max_row),
        },
        Motion::Home => Address { x: 0, y: min_of(start_row, max_row) },
        Motion::End => Address { x: max_col, y: min_of(start_row, max_row) },
        Motion::DocumentStart => Address { x: 0, y: 0 },
        Motion::DocumentEnd => Address { x: max_col, y: max_row },
    };
    Range { start: new_cell, end: None }
}

fn step(v: usize, back: bool, forward: bool, max: usize) -> (r: usize)
    requires
        !(back && forward),
    ensures
        r == step_clamped(v, if back { -1int } else if forward { 1int } else { 0int }, max),
{
    if back {
        if v == 0 { 0 } else if v - 1 > max { max } else { v - 1 }
    } else if forward {
        if v >= max { max } else { v + 1 }
    } else {
        if v > max { max } else { v }
    }
}

/// The selection after moving its end one cell by a directional `motion`
/// (Left, Right, Up or Down), clamped to a table of `row_count` rows and
/// `column_count` columns; the start stays. Other motions change nothing.
pub fn expand_selection(selection: &Range, motion: Motion, row_count: usize, column_count: usize) -> (r: Range)
    ensures
        r == expanded(*selection, motion, row_count, column_count),
{
    let sel = *selection;
    match motion {
        Motion::Left | Motion::Right | Motion::Up | Motion::Down => {
            let max_col = max_of(column_count);
            let max_row = max_of(row_count);
            let end = match sel.end {
                Some(e) => e,
                None => sel.start,
            };
            let left = matches!(motion, Motion::Left);
            let right = matches!(motion, Motion::Right);
            let up = matches!(motion, Motion::Up);
            let down = matches!(motion, Motion::Down);
            let new_x = step(end.x, left, right, max_col);
            let new_y = step(end.y, up, down, max_row);
            Range { start: sel.start, end: Some(Address { x: new_x, y: new_y }) }
        },
        _ => sel,
    }
}

/// Moving the active cell of any selection, by any motion, gives a single
/// cell that lies in the table.
pub proof fn lemma_move_stays_in_table(sel: Range, motion: Motion, rows: usize, cols: usize)
    requires
        rows >= 1,
        cols >= 1,
    ensures
        moved_cell(sel, motion, rows, cols).x < cols,
        moved_cell(sel, motion, rows, cols).y < rows,
{
}

/// The selection after applying `motion` `n` times.
pub open spec fn moved_times(sel: Range, motion: Motion, rows: usize, cols: usize, n: nat) -> Range
    decreases n,
{
    if n == 0 {
        sel
    } else {
        Range { start: moved_cell(moved_times(sel, motion, rows, cols, (n - 1) as nat), motion, rows, cols), end: None }
    }
}

/// Applying a motion one or more times to any selection lands in the
/// table, and never leaves it.
pub proof fn lemma_repeated_moves_stay_in_table(sel: Range, motion: Motion, rows: usize, cols: usize, n: nat)
    requires
        rows >= 1,
        cols >= 1,
        n >= 1,
    ensures
        moved_times(sel, motion, rows, cols, n).start.x < cols,
        moved_times(sel, motion, rows, cols, n).start.y < rows,
{
    lemma_move_stays_in_table(moved_times(sel, motion, rows, cols, (n - 1) as nat), motion, rows, cols);
}

/// Expanding a selection moves only its end, and keeps the end in the table.
pub proof fn lemma_expand_keeps_start(sel: Range, motion: Motion, rows: usize, cols: usize)
    requires
        rows >= 1,
        cols >= 1,
        far(sel).x < cols,
        far(sel).y < rows,
    ensures
        expanded(sel, motion, rows, cols).start == sel.start,
        far(expanded(sel, motion, rows, cols)).x < cols,
        far(expanded(sel, motion, rows, cols)).y < rows,
{
}

} // verus!
