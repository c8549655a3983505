//! State that the host's table data keeps for the table.
use vstd::prelude::*;

use crate::action::{Action, Edit};
use crate::reference::{first_col, first_row, last_col, last_row, Address, Range};
use crate::selection::{expand_selection, expanded, max_index, move_selection, moved_cell};
use crate::update::Motion;
use crate::utils::Axis;

verus! {

/// Whether the host's data has changed in a way the table must catch up
/// with (a new number of rows or columns, new sizes); a new one is dirty.
#[derive(Debug)]
pub struct Internal {
    is_dirty: bool,
}

impl Internal {
    pub closed spec fn dirty(&self) -> bool {
        self.is_dirty
    }

    /// A new, dirty, state.
    pub fn new() -> (r: Internal)
        ensures
            r.dirty(),
    {
        Internal { is_dirty: true }
    }

    /// Marks the content as dirty.
    pub fn set_dirty(&mut self)
        ensures
            final(self).dirty(),
    {
        self.is_dirty = true;
    }

    /// Marks the content as clean.
    pub fn set_clean(&mut self)
        ensures
            !final(self).dirty(),
    {
        self.is_dirty = false;
    }

    /// Whether the content is dirty.
    pub fn is_dirty(&self) -> (r: bool)
        ensures
            r == self.dirty(),
    {
        self.is_dirty
    }

    /// Whether the content was dirty; it is clean afterwards.
    pub fn take_dirty(&mut self) -> (r: bool)
        ensures
            r == old(self).dirty(),
            !final(self).dirty(),
    {
        let r = self.is_dirty;
        self.is_dirty = false;
        r
    }
}

impl Default for Internal {
    fn default() -> (r: Internal)
        ensures
            r.dirty(),
    {
        Internal::new()
    }
}

impl Clone for Internal {
    /// A copy is a new state, and so dirty.
    fn clone(&self) -> (r: Internal)
        ensures
            r.dirty(),
    {
        Internal::new()
    }
}

/// `sizes` with `delta` added to the size at `index`, the result at least 0
/// and at most `u32::MAX`; an index past the end changes nothing.
pub open spec fn grown(sizes: Seq<u32>, index: int, delta: i64) -> Seq<u32> {
    if 0 <= index < sizes.len() {
        let v = sizes[index] + delta;
        sizes.update(index, if v < 0 { 0 } else if v > u32::MAX { u32::MAX } else { v as u32 })
    } else {
        sizes
    }
}

/// Whether `a` lies in the rectangle that `r` spans, whichever way round its
/// corners are.
pub open spec fn in_rectangle(r: Range, a: Address) -> bool {
    first_col(r) <= a.x <= last_col(r) && first_row(r) <= a.y <= last_row(r)
}

/// The table data that a host owns: the table reads it and asks for changes
/// through [`Action`]s, which [`Tabular::perform`] applies.
pub trait Tabular: Sized {
    /// The current selection.
    spec fn spec_selection(&self) -> Range;

    spec fn spec_row_count(&self) -> usize;

    spec fn spec_column_count(&self) -> usize;

    /// The declared size of each column and each row.
    spec fn spec_column_sizes(&self) -> Seq<u32>;

    spec fn spec_row_sizes(&self) -> Seq<u32>;

    /// The text of a cell: empty for a cell that holds the default content,
    /// and for a cell outside the table.
    spec fn spec_cell(&self, cell: Address) -> Seq<char>;

    /// The number of rows.
    fn row_count(&self) -> (r: usize)
        ensures
            r == self.spec_row_count(),
    ;

    /// The number of columns.
    fn column_count(&self) -> (r: usize)
        ensures
            r == self.spec_column_count(),
    ;

    /// The currently selected cells.
    fn selection(&self) -> (r: Range)
        ensures
            r == self.spec_selection(),
    ;

    /// Selects the given range.
    fn select_range(&mut self, range: Range)
        ensures
            final(self).spec_selection() == range,
            (old(self).spec_row_count() == final(self).spec_row_count() && old(self).spec_column_count() == final(self).spec_column_count() && old(self).spec_column_sizes() == final(self).spec_column_sizes() && old(self).spec_row_sizes() == final(self).spec_row_sizes()),
            forall|a: Address| #[trigger] final(self).spec_cell(a) == old(self).spec_cell(a),
    ;

    /// Selects every cell: from the first cell to the last.
    fn select_all(&mut self)
        ensures
            final(self).spec_selection() == (Range {
                start: Address { x: 0, y: 0 },
                end: Some(
                    Address {
                        x: max_index(old(self).spec_column_count()),
                        y: max_index(old(self).spec_row_count()),
                    },
                ),
            }),
            (old(self).spec_row_count() == final(self).spec_row_count() && old(self).spec_column_count() == final(self).spec_column_count() && old(self).spec_column_sizes() == final(self).spec_column_sizes() && old(self).spec_row_sizes() == final(self).spec_row_sizes()),
            forall|a: Address| #[trigger] final(self).spec_cell(a) == old(self).spec_cell(a),
    ;

    /// Puts the default content in a cell.
    fn clear_cell(&mut self, cell: Address)
        ensures
            final(self).spec_selection() == old(self).spec_selection(),
            (old(self).spec_row_count() == final(self).spec_row_count() && old(self).spec_column_count() == final(self).spec_column_count() && old(self).spec_column_sizes() == final(self).spec_column_sizes() && old(self).spec_row_sizes() == final(self).spec_row_sizes()),
            final(self).spec_cell(cell) == Seq::<char>::empty(),
            forall|a: Address| a != cell ==> #[trigger] final(self).spec_cell(a) == old(self).spec_cell(a),
    ;

    /// The declared size of a column or row, if it exists.
    fn size(&self, axis: Axis, index: usize) -> (r: Option<u32>)
        ensures
            r == (match axis {
                Axis::Column => if index < self.spec_column_sizes().len() {
                    Some(self.spec_column_sizes()[index as int])
                } else {
                    None
                },
                Axis::Row => if index < self.spec_row_sizes().len() {
                    Some(self.spec_row_sizes()[index as int])
                } else {
                    None
                },
            }),
    ;

    /// Sets the declared size of an existing column or row.
    fn set_size(&mut self, axis: Axis, index: usize, size: u32)
        requires
            index < (match axis {
                Axis::Column => old(self).spec_column_sizes().len(),
                Axis::Row => old(self).spec_row_sizes().len(),
            }),
        ensures
            final(self).spec_selection() == old(self).spec_selection(),
            final(self).spec_row_count() == old(self).spec_row_count(),
            final(self).spec_column_count() == old(self).spec_column_count(),
            final(self).spec_column_sizes() == (match axis {
                Axis::Column => old(self).spec_column_sizes().update(index as int, size),
                Axis::Row => old(self).spec_column_sizes(),
            }),
            final(self).spec_row_sizes() == (match axis {
                Axis::Row => old(self).spec_row_sizes().update(index as int, size),
                Axis::Column => old(self).spec_row_sizes(),
            }),
            forall|a: Address| #[trigger] final(self).spec_cell(a) == old(self).spec_cell(a),
    ;

    /// Applies an action: selections replace the selection, motions move it
    /// within the table, a delete clears every selected cell, and a divider
    /// resize adds the delta to the declared size of its track (at least 0).
    /// Only a delete changes cells, and only those of the selection.
    fn perform(&mut self, action: Action)
        ensures
            forall|a: Address|
                !(action is Edit && in_rectangle(old(self).spec_selection(), a))
                    ==> #[trigger] final(self).spec_cell(a) == old(self).spec_cell(a),
            match action {
                Action::Select(r) => final(self).spec_selection() == r && (old(self).spec_row_count() == final(self).spec_row_count() && old(self).spec_column_count() == final(self).spec_column_count() && old(self).spec_column_sizes() == final(self).spec_column_sizes() && old(self).spec_row_sizes() == final(self).spec_row_sizes()),
                Action::SelectAll => final(self).spec_selection() == (Range {
                    start: Address { x: 0, y: 0 },
                    end: Some(
                        Address {
                            x: max_index(old(self).spec_column_count()),
                            y: max_index(old(self).spec_row_count()),
                        },
                    ),
                }) && (old(self).spec_row_count() == final(self).spec_row_count() && old(self).spec_column_count() == final(self).spec_column_count() && old(self).spec_column_sizes() == final(self).spec_column_sizes() && old(self).spec_row_sizes() == final(self).spec_row_sizes()),
                Action::MoveSelection(m) => final(self).spec_selection() == (Range {
                    start: moved_cell(
                        old(self).spec_selection(),
                        m,
                        old(self).spec_row_count(),
                        old(self).spec_column_count(),
                    ),
                    end: None,
                }) && (old(self).spec_row_count() == final(self).spec_row_count() && old(self).spec_column_count() == final(self).spec_column_count() && old(self).spec_column_sizes() == final(self).spec_column_sizes() && old(self).spec_row_sizes() == final(self).spec_row_sizes()),
                Action::ExpandSelection(m) => final(self).spec_selection() == expanded(
                    old(self).spec_selection(),
                    m,
                    old(self).spec_row_count(),
                    old(self).spec_column_count(),
                ) && (old(self).spec_row_count() == final(self).spec_row_count() && old(self).spec_column_count() == final(self).spec_column_count() && old(self).spec_column_sizes() == final(self).spec_column_sizes() && old(self).spec_row_sizes() == final(self).spec_row_sizes()),
                Action::Edit(_) => {
                    &&& final(self).spec_selection() == old(self).spec_selection()
                    &&& (old(self).spec_row_count() == final(self).spec_row_count() && old(self).spec_column_count() == final(self).spec_column_count() && old(self).spec_column_sizes() == final(self).spec_column_sizes() && old(self).spec_row_sizes() == final(self).spec_row_sizes())
                    &&& forall|a: Address|
                        in_rectangle(old(self).spec_selection(), a) ==> #[trigger] final(self).spec_cell(a)
                            == Seq::<char>::empty()
                },
                Action::ResizeDivider(axis, index, delta) => {
                    &&& final(self).spec_selection() == old(self).spec_selection()
                    &&& final(self).spec_row_count() == old(self).spec_row_count()
                    &&& final(self).spec_column_count() == old(self).spec_column_count()
                    &&& final(self).spec_column_sizes() == if axis == Axis::Column {
                        grown(old(self).spec_column_sizes(), index as int, delta)
                    } else {
                        old(self).spec_column_sizes()
                    }
                    &&& final(self).spec_row_sizes() == if axis == Axis::Row {
                        grown(old(self).spec_row_sizes(), index as int, delta)
                    } else {
                        old(self).spec_row_sizes()
                    }
                },
            },
    {
        match action {
            Action::Edit(Edit::Delete) => self.clear_selection(),
            Action::Select(range) => self.select_range(range),
            Action::SelectAll => self.select_all(),
            Action::MoveSelection(motion) => self.move_selection(motion),
            Action::ExpandSelection(motion) => self.expand_selection(motion),
            Action::ResizeDivider(axis, index, delta) => {
                match self.size(axis, index) {
                    Some(old_size) => {
                        let v: i128 = old_size as i128 + delta as i128;
                        let new_size: u32 = if v < 0 {
                            0
                        } else if v > u32::MAX as i128 {
                            u32::MAX
                        } else {
                            v as u32
                        };
                        self.set_size(axis, index, new_size);
                    },
                    None => {},
                }
            },
        }
    }

    /// Clears every cell of the selection's rectangle.
    fn clear_selection(&mut self)
        ensures
            final(self).spec_selection() == old(self).spec_selection(),
            (old(self).spec_row_count() == final(self).spec_row_count() && old(self).spec_column_count() == final(self).spec_column_count() && old(self).spec_column_sizes() == final(self).spec_column_sizes() && old(self).spec_row_sizes() == final(self).spec_row_sizes()),
            forall|a: Address|
                in_rectangle(old(self).spec_selection(), a) ==> #[trigger] final(self).spec_cell(a)
                    == Seq::<char>::empty(),
            forall|a: Address|
                !in_rectangle(old(self).spec_selection(), a) ==> #[trigger] final(self).spec_cell(a)
                    == old(self).spec_cell(a),
    {
        let sel = self.selection().normalize();
        let x0 = sel.start.x;
        let y0 = sel.start.y;
        let (x1, y1) = match sel.end {
            Some(e) => (e.x, e.y),
            None => (x0, y0),
        };
        let ghost s0 = *self;
        let mut x = x0;
        loop
            invariant_except_break
                forall|a: Address|
                    !(x0 <= a.x < x && y0 <= a.y <= y1) ==> #[trigger] self.spec_cell(a) == s0.spec_cell(a),
            invariant
                x0 <= x <= x1,
                x0 == first_col(s0.spec_selection()),
                x1 == last_col(s0.spec_selection()),
                y0 == first_row(s0.spec_selection()),
                y1 == last_row(s0.spec_selection()),
                self.spec_selection() == s0.spec_selection(),
                (s0.spec_row_count() == self.spec_row_count() && s0.spec_column_count() == self.spec_column_count() && s0.spec_column_sizes() == self.spec_column_sizes() && s0.spec_row_sizes() == self.spec_row_sizes()),
                forall|a: Address|
                    x0 <= a.x < x && y0 <= a.y <= y1 ==> #[trigger] self.spec_cell(a) == Seq::<
                        char,
                    >::empty(),
            ensures
                forall|a: Address|
                    x0 <= a.x <= x1 && y0 <= a.y <= y1 ==> #[trigger] self.spec_cell(a) == Seq::<
                        char,
                    >::empty(),
                forall|a: Address|
                    !(x0 <= a.x <= x1 && y0 <= a.y <= y1) ==> #[trigger] self.spec_cell(a) == s0.spec_cell(a),
            decreases x1 - x,
        {
            let mut y = y0;
            loop
                invariant_except_break
                    forall|a: Address|
                        !((x0 <= a.x < x && y0 <= a.y <= y1) || (a.x == x && y0 <= a.y < y)) ==> #[trigger] self.spec_cell(a)
                            == s0.spec_cell(a),
                invariant
                    x0 <= x <= x1,
                    y0 <= y <= y1,
                    x0 == first_col(s0.spec_selection()),
                    x1 == last_col(s0.spec_selection()),
                    y0 == first_row(s0.spec_selection()),
                    y1 == last_row(s0.spec_selection()),
                    self.spec_selection() == s0.spec_selection(),
                    (s0.spec_row_count() == self.spec_row_count() && s0.spec_column_count() == self.spec_column_count() && s0.spec_column_sizes() == self.spec_column_sizes() && s0.spec_row_sizes() == self.spec_row_sizes()),
                    forall|a: Address|
                        ((x0 <= a.x < x && y0 <= a.y <= y1) || (a.x == x && y0 <= a.y < y)) ==> #[trigger] self.spec_cell(a)
                            == Seq::<char>::empty(),
                ensures
                    self.spec_selection() == s0.spec_selection(),
                    (s0.spec_row_count() == self.spec_row_count() && s0.spec_column_count() == self.spec_column_count() && s0.spec_column_sizes() == self.spec_column_sizes() && s0.spec_row_sizes() == self.spec_row_sizes()),
                    forall|a: Address|
                        x0 <= a.x <= x && y0 <= a.y <= y1 ==> #[trigger] self.spec_cell(a) == Seq::<char>::empty(),
                    forall|a: Address|
                        !(x0 <= a.x <= x && y0 <= a.y <= y1) ==> #[trigger] self.spec_cell(a) == s0.spec_cell(a),
                decreases y1 - y,
            {
                self.clear_cell(Address { x, y });
                if y == y1 {
                    break;
                }
                y = y + 1;
            }
            if x == x1 {
                break;
            }
            x = x + 1;
        }
    }

    /// Moves the active cell by `motion`; the selection becomes that one
    /// cell.
    fn move_selection(&mut self, motion: Motion)
        ensures
            final(self).spec_selection() == (Range {
                start: moved_cell(
                    old(self).spec_selection(),
                    motion,
                    old(self).spec_row_count(),
                    old(self).spec_column_count(),
                ),
                end: None,
            }),
            (old(self).spec_row_count() == final(self).spec_row_count() && old(self).spec_column_count() == final(self).spec_column_count() && old(self).spec_column_sizes() == final(self).spec_column_sizes() && old(self).spec_row_sizes() == final(self).spec_row_sizes()),
            forall|a: Address| #[trigger] final(self).spec_cell(a) == old(self).spec_cell(a),
    {
        let sel = self.selection();
        let r = move_selection(&sel, motion, self.row_count(), self.column_count());
        self.select_range(r);
    }

    /// Moves the end of the selection by `motion`.
    fn expand_selection(&mut self, motion: Motion)
        ensures
            final(self).spec_selection() == expanded(
                old(self).spec_selection(),
                motion,
                old(self).spec_row_count(),
                old(self).spec_column_count(),
            ),
            (old(self).spec_row_count() == final(self).spec_row_count() && old(self).spec_column_count() == final(self).spec_column_count() && old(self).spec_column_sizes() == final(self).spec_column_sizes() && old(self).spec_row_sizes() == final(self).spec_row_sizes()),
            forall|a: Address| #[trigger] final(self).spec_cell(a) == old(self).spec_cell(a),
    {
        let sel = self.selection();
        let r = expand_selection(&sel, motion, self.row_count(), self.column_count());
        self.select_range(r);
    }
}

} // verus!
