//! A table store held as columns of text cells, implementing [`Tabular`].
use vstd::prelude::*;

use crate::content::{Internal, Tabular};
use crate::reference::{first_col, first_row, last_col, last_row, Address, Range};
use crate::selection::max_index;
use crate::utils::Axis;

verus! {

/// The width a new column gets.
pub const DEFAULT_COLUMN_WIDTH: u32 = 100;

/// The height a new row gets.
pub const DEFAULT_ROW_HEIGHT: u32 = 20;

/// Text cells held column by column, with the selection and the declared
/// sizes of the columns and rows.
#[derive(Debug)]
pub struct Content {
    columns: Vec<Vec<String>>,
    selection: Range,
    col_widths: Vec<u32>,
    row_heights: Vec<u32>,
    range: Range,
    internal: Internal,
}

/// The cells of column `i` with their text, their references offset by
/// `(ox, oy)`.
pub open spec fn column_entries(col: Seq<Seq<char>>, i: int, ox: int, oy: int) -> Seq<(Address, Seq<char>)> {
    Seq::new(col.len(), |j: int| (Address { x: (i + ox) as usize, y: (j + oy) as usize }, col[j]))
}

/// Every cell with its text, column by column, each column from top to
/// bottom, the references offset by `(ox, oy)`.
pub open spec fn entries(cells: Seq<Seq<Seq<char>>>, ox: int, oy: int) -> Seq<(Address, Seq<char>)>
    decreases cells.len(),
{
    if cells.len() == 0 {
        seq![]
    } else {
        entries(cells.drop_last(), ox, oy) + column_entries(cells.last(), cells.len() - 1, ox, oy)
    }
}

pub open spec fn entry_view(v: Seq<(Address, String)>) -> Seq<(Address, Seq<char>)> {
    v.map_values(|p: (Address, String)| (p.0, p.1@))
}

/// The length of the longest of `cols`.
pub open spec fn longest(cols: Seq<Seq<Seq<char>>>) -> nat
    decreases cols.len(),
{
    if cols.len() == 0 {
        0
    } else {
        let l = longest(cols.drop_last());
        if cols.last().len() > l { cols.last().len() } else { l }
    }
}

proof fn lemma_longest_bounds(cols: Seq<Seq<Seq<char>>>)
    ensures
        forall|i: int| 0 <= i < cols.len() ==> (#[trigger] cols[i]).len() <= longest(cols),
    decreases cols.len(),
{
    if cols.len() > 0 {
        lemma_longest_bounds(cols.drop_last());
        assert forall|i: int| 0 <= i < cols.len() implies (#[trigger] cols[i]).len() <= longest(cols) by {
            if i < cols.len() - 1 {
                assert(cols[i] == cols.drop_last()[i]);
            }
        }
    }
}

impl Content {
    /// The text of every cell, column by column.
    pub closed spec fn cells(&self) -> Seq<Seq<Seq<char>>> {
        Seq::new(self.columns@.len(), |i: int| Seq::new(self.columns@[i]@.len(), |j: int| self.columns@[i]@[j]@))
    }

    /// The text of a cell: empty outside the grid.
    pub open spec fn text(&self, a: Address) -> Seq<char> {
        if a.x < self.cells().len() && a.y < self.cells()[a.x as int].len() {
            self.cells()[a.x as int][a.y as int]
        } else {
            Seq::<char>::empty()
        }
    }

    /// Every column holds `rows` cells.
    pub open spec fn uniform(&self, rows: nat) -> bool {
        forall|i: int| 0 <= i < self.cells().len() ==> #[trigger] self.cells()[i].len() == rows
    }

    pub closed spec fn spec_range(&self) -> Range {
        self.range
    }

    /// An empty table for the given range.
    pub fn from_range(range: &Range) -> (r: Content)
        ensures
            r.cells().len() == 0,
            r.spec_range() == *range,
            r.spec_selection() == (Range { start: Address { x: 0, y: 0 }, end: None }),
            r.spec_column_sizes().len() == 0,
            r.spec_row_sizes().len() == 0,
    {
        Content {
            columns: Vec::new(),
            selection: Range { start: Address { x: 0, y: 0 }, end: None },
            col_widths: Vec::new(),
            row_heights: Vec::new(),
            range: *range,
            internal: Internal::new(),
        }
    }

    /// A table of empty cells as wide and as high as `range`, with the
    /// default sizes.
    pub fn with_range(range: Range) -> (r: Content)
        requires
            last_col(range) - first_col(range) < usize::MAX,
            last_row(range) - first_row(range) < usize::MAX,
        ensures
            r.cells().len() == last_col(range) - first_col(range) + 1,
            r.spec_column_count() == last_col(range) - first_col(range) + 1,
            r.spec_row_count() == last_row(range) - first_row(range) + 1,
            r.uniform((last_row(range) - first_row(range) + 1) as nat),
            forall|a: Address| #[trigger] r.text(a) == Seq::<char>::empty(),
            r.spec_column_sizes() == Seq::new(r.cells().len(), |i: int| DEFAULT_COLUMN_WIDTH),
            r.spec_row_sizes() == Seq::new(
                (last_row(range) - first_row(range) + 1) as nat,
                |i: int| DEFAULT_ROW_HEIGHT,
            ),
            r.spec_range() == range,
            r.spec_selection() == (Range { start: Address { x: 0, y: 0 }, end: None }),
    {
        let n = range.normalize();
        let start = n.start;
        let end = match n.end {
            Some(e) => e,
            None => start,
        };
        let cols = end.x - start.x + 1;
        let rows = end.y - start.y + 1;
        let mut columns: Vec<Vec<String>> = Vec::new();
        let mut col_widths: Vec<u32> = Vec::new();
        let mut i: usize = 0;
        while i < cols
            invariant
                0 <= i <= cols,
                columns@.len() == i,
                col_widths@.len() == i,
                forall|k: int| 0 <= k < i ==> #[trigger] col_widths@[k] == DEFAULT_COLUMN_WIDTH,
                forall|k: int| 0 <= k < i ==> (#[trigger] columns@[k])@.len() == rows,
                forall|k: int, j: int|
                    0 <= k < i && 0 <= j < rows ==> (#[trigger] columns@[k]@[j])@ == Seq::<char>::empty(),
            decreases cols - i,
        {
            let mut column: Vec<String> = Vec::new();
            let mut j: usize = 0;
            while j < rows
                invariant
                    0 <= j <= rows,
                    column@.len() == j,
                    forall|k: int| 0 <= k < j ==> (#[trigger] column@[k])@ == Seq::<char>::empty(),
                decreases rows - j,
            {
                column.push(String::new());
                j = j + 1;
            }
            columns.push(column);
            col_widths.push(DEFAULT_COLUMN_WIDTH);
            i = i + 1;
        }
        let mut row_heights: Vec<u32> = Vec::new();
        let mut j: usize = 0;
        while j < rows
            invariant
                0 <= j <= rows,
                row_heights@.len() == j,
                forall|k: int| 0 <= k < j ==> #[trigger] row_heights@[k] == DEFAULT_ROW_HEIGHT,
            decreases rows - j,
        {
            row_heights.push(DEFAULT_ROW_HEIGHT);
            j = j + 1;
        }
        let r = Content {
            columns,
            selection: Range { start: Address { x: 0, y: 0 }, end: None },
            col_widths,
            row_heights,
            range,
            internal: Internal::new(),
        };
        assert(r.col_widths@ =~= Seq::new(r.cells().len(), |i: int| DEFAULT_COLUMN_WIDTH));
        assert(r.row_heights@ =~= Seq::new(rows as nat, |i: int| DEFAULT_ROW_HEIGHT));
        r
    }

    /// A table from its parts, as a host restores it; the new table is
    /// dirty.
    pub fn from_parts(
        items: Vec<Vec<String>>,
        selection: Range,
        col_widths: Vec<u32>,
        row_heights: Vec<u32>,
        range: Range,
    ) -> (r: Content)
        ensures
            r.cells() == Seq::new(items@.len(), |i: int| Seq::new(items@[i]@.len(), |j: int| items@[i]@[j]@)),
            r.spec_selection() == selection,
            r.spec_column_sizes() == col_widths@,
            r.spec_row_sizes() == row_heights@,
            r.spec_range() == range,
            r.spec_internal().dirty(),
    {
        Content { columns: items, selection, col_widths, row_heights, range, internal: Internal::new() }
    }

    /// The cells, column by column.
    pub fn items(&self) -> (r: &Vec<Vec<String>>)
        ensures
            Seq::new(r@.len(), |i: int| Seq::new(r@[i]@.len(), |j: int| r@[i]@[j]@)) == self.cells(),
    {
        &self.columns
    }

    /// The table with the given row heights.
    pub fn with_row_heights(self, sizes: Vec<u32>) -> (r: Content)
        ensures
            r.spec_row_sizes() == sizes@,
            r.spec_column_sizes() == self.spec_column_sizes(),
            r.cells() == self.cells(),
            r.spec_selection() == self.spec_selection(),
    {
        Content { row_heights: sizes, ..self }
    }

    /// The table with the given column widths.
    pub fn with_column_widths(self, sizes: Vec<u32>) -> (r: Content)
        ensures
            r.spec_column_sizes() == sizes@,
            r.spec_row_sizes() == self.spec_row_sizes(),
            r.cells() == self.cells(),
            r.spec_selection() == self.spec_selection(),
    {
        Content { col_widths: sizes, ..self }
    }

    /// Every cell with its text, column by column.
    pub fn iter(&self) -> (r: Vec<(Address, String)>)
        ensures
            entry_view(r@) == entries(self.cells(), 0, 0),
    {
        proof {
            assert(self.columns@.len() == self.columns.len());
            assert forall|i: int| 0 <= i < self.cells().len() implies #[trigger] self.cells()[i].len()
                <= usize::MAX by {
                assert(self.columns@[i]@.len() == self.columns@[i].len());
            }
        }
        self.entries_from(0, 0)
    }

    /// Every cell with its text, column by column, referenced by its place
    /// in the source sheet: offset by the start of the table's range.
    pub fn iter_relative(&self) -> (r: Vec<(Address, String)>)
        requires
            self.spec_range().start.x + self.cells().len() <= usize::MAX,
            forall|i: int|
                0 <= i < self.cells().len() ==> self.spec_range().start.y + (#[trigger] self.cells()[i]).len()
                    <= usize::MAX,
        ensures
            entry_view(r@) == entries(self.cells(), self.spec_range().start.x as int, self.spec_range().start.y as int),
    {
        self.entries_from(self.range.start.x, self.range.start.y)
    }

    fn entries_from(&self, ox: usize, oy: usize) -> (r: Vec<(Address, String)>)
        requires
            ox + self.cells().len() <= usize::MAX,
            forall|i: int| 0 <= i < self.cells().len() ==> oy + (#[trigger] self.cells()[i]).len() <= usize::MAX,
        ensures
            entry_view(r@) == entries(self.cells(), ox as int, oy as int),
    {
        let mut out: Vec<(Address, String)> = Vec::new();
        let n = self.columns.len();
        let mut i: usize = 0;
        while i < n
            invariant
                n == self.cells().len(),
                0 <= i <= n,
                ox + n <= usize::MAX,
                forall|k: int| 0 <= k < n ==> oy + (#[trigger] self.cells()[k]).len() <= usize::MAX,
                entry_view(out@) == entries(self.cells().subrange(0, i as int), ox as int, oy as int),
            decreases n - i,
        {
            let ghost before = out@;
            let m = self.columns[i].len();
            assert(m == self.cells()[i as int].len());
            let mut j: usize = 0;
            while j < m
                invariant
                    n == self.cells().len(),
                    0 <= i < n,
                    0 <= j <= m,
                    m == self.cells()[i as int].len(),
                    ox + n <= usize::MAX,
                    oy + m <= usize::MAX,
                    entry_view(out@) == entry_view(before) + column_entries(
                        self.cells()[i as int].subrange(0, j as int),
                        i as int,
                        ox as int,
                        oy as int,
                    ),
                decreases m - j,
            {
                let text = self.columns[i][j].clone();
                assert(text@ == self.cells()[i as int][j as int]);
                let ghost prev = out@;
                let item = (Address { x: i + ox, y: j + oy }, text);
                out.push(item);
                assert(entry_view(out@) =~= entry_view(prev).push((item.0, item.1@)));
                assert(column_entries(self.cells()[i as int].subrange(0, j + 1), i as int, ox as int, oy as int)
                    =~= column_entries(self.cells()[i as int].subrange(0, j as int), i as int, ox as int, oy as int).push((item.0, item.1@)));
                assert(entry_view(out@) =~= entry_view(before) + column_entries(
                    self.cells()[i as int].subrange(0, j + 1),
                    i as int,
                    ox as int,
                    oy as int,
                ));
                j = j + 1;
            }
            let ghost next = self.cells().subrange(0, i + 1);
            assert(next.drop_last() =~= self.cells().subrange(0, i as int));
            assert(self.cells()[i as int].subrange(0, m as int) =~= self.cells()[i as int]);
            i = i + 1;
        }
        assert(self.cells().subrange(0, n as int) =~= self.cells());
        out
    }

    /// The range the table was made for.
    pub fn range(&self) -> (r: Range)
        ensures
            r == self.spec_range(),
    {
        self.range
    }

    /// The text of a cell, if it lies in the grid.
    pub fn get(&self, cell: Address) -> (r: Option<&String>)
        ensures
            match r {
                Some(s) => cell.x < self.cells().len() && cell.y < self.cells()[cell.x as int].len()
                    && s@ == self.text(cell),
                None => !(cell.x < self.cells().len() && cell.y < self.cells()[cell.x as int].len()),
            },
    {
        if cell.x < self.columns.len() && cell.y < self.columns[cell.x].len() {
            Some(&self.columns[cell.x][cell.y])
        } else {
            None
        }
    }

    /// Puts `item` in a cell, first growing the grid with empty cells (and
    /// the default sizes) so that it reaches the cell.
    pub fn insert(&mut self, cell: Address, item: String)
        requires
            cell.x < usize::MAX,
            cell.y < usize::MAX,
        ensures
            final(self).text(cell) == item@,
            final(self).cells().len() == if cell.x + 1 > old(self).cells().len() {
                cell.x + 1
            } else {
                old(self).cells().len() as int
            },
            final(self).uniform(final(self).spec_row_count() as nat),
            final(self).spec_row_count() == if cell.y + 1 > longest(old(self).cells()) {
                cell.y + 1
            } else {
                longest(old(self).cells()) as int
            },
            forall|a: Address| a != cell ==> #[trigger] final(self).text(a) == old(self).text(a),
            final(self).spec_selection() == old(self).spec_selection(),
    {
        let cols = if cell.x + 1 > self.columns.len() { cell.x + 1 } else { self.columns.len() };
        let count = self.longest_column();
        let rows = if cell.y + 1 > count { cell.y + 1 } else { count };
        proof {
            lemma_longest_bounds(self.cells());
        }
        self.ensure_uniform_grid(rows, cols);
        let ghost mid = *self;
        assert(mid.cells()[cell.x as int].len() == rows);
        assert(mid.columns@[cell.x as int]@.len() == rows);
        let mut column: Vec<String> = Vec::new();
        std::mem::swap(&mut column, &mut self.columns[cell.x]);
        assert(column == mid.columns@[cell.x as int]);
        column.set(cell.y, item);
        self.columns.set(cell.x, column);
        assert(self.cells()[cell.x as int][cell.y as int] == item@);
        assert forall|i: int| 0 <= i < self.cells().len() implies #[trigger] self.cells()[i].len()
            == mid.cells()[i].len() by {
            if i != cell.x {
                assert(self.columns@[i] == mid.columns@[i]);
            }
        }
        assert(self.columns@[0]@.len() == mid.columns@[0]@.len());
        assert forall|a: Address| a != cell implies #[trigger] self.text(a) == mid.text(a) by {
            if a.x < self.cells().len() && a.x != cell.x {
                assert(self.cells()[a.x as int] == mid.cells()[a.x as int]);
            }
        }
    }

    /// Grows the grid to at least `cols` columns, every column to exactly
    /// `rows` cells, with empty cells and default sizes.
    fn longest_column(&self) -> (r: usize)
        ensures
            r == longest(self.cells()),
    {
        let mut best: usize = 0;
        let mut i: usize = 0;
        while i < self.columns.len()
            invariant
                0 <= i <= self.cells().len(),
                best == longest(self.cells().subrange(0, i as int)),
            decreases self.cells().len() - i,
        {
            assert(self.cells().subrange(0, i + 1).drop_last() =~= self.cells().subrange(0, i as int));
            let l = self.columns[i].len();
            if l > best {
                best = l;
            }
            i = i + 1;
        }
        assert(self.cells().subrange(0, i as int) =~= self.cells());
        best
    }

    fn ensure_uniform_grid(&mut self, rows: usize, cols: usize)
        requires
            forall|i: int| 0 <= i < old(self).cells().len() ==> (#[trigger] old(self).cells()[i]).len() <= rows,
            cols >= 1,
        ensures
            final(self).cells().len() == if cols > old(self).cells().len() { cols as int } else { old(self).cells().len() as int },
            final(self).uniform(rows as nat),
            final(self).spec_row_count() == rows,
            forall|a: Address| #[trigger] final(self).text(a) == old(self).text(a),
            final(self).spec_selection() == old(self).spec_selection(),
    {
        let ghost s0 = *self;
        while self.columns.len() < cols
            invariant
                self.columns@.len() <= cols || self.columns@.len() == s0.columns@.len(),
                s0.columns@.len() <= self.columns@.len(),
                forall|k: int| 0 <= k < s0.columns@.len() ==> #[trigger] self.columns@[k] == s0.columns@[k],
                forall|k: int| s0.columns@.len() <= k < self.columns@.len() ==> (#[trigger] self.columns@[k])@.len() == 0,
                self.selection == s0.selection,
            decreases cols - self.columns@.len(),
        {
            self.columns.push(Vec::new());
            self.col_widths.push(DEFAULT_COLUMN_WIDTH);
        }
        let ghost s1 = *self;
        let n = self.columns.len();
        let mut i: usize = 0;
        while i < n
            invariant
                n == self.columns@.len() == s1.columns@.len(),
                n >= 1,
                0 <= i <= n,
                forall|k: int| 0 <= k < s0.cells().len() ==> (#[trigger] s0.cells()[k]).len() <= rows,
                forall|k: int| 0 <= k < s0.columns@.len() ==> #[trigger] s1.columns@[k] == s0.columns@[k],
                forall|k: int| s0.columns@.len() <= k < n ==> (#[trigger] s1.columns@[k])@.len() == 0,
                forall|k: int| 0 <= k < i ==> (#[trigger] self.columns@[k])@.len() == rows,
                forall|k: int| i <= k < n ==> #[trigger] self.columns@[k] == s1.columns@[k],
                forall|k: int, j: int|
                    0 <= k < i && 0 <= j < s1.columns@[k]@.len() ==> (#[trigger] self.columns@[k]@[j])@ == s1.columns@[k]@[j]@,
                forall|k: int, j: int|
                    0 <= k < i && s1.columns@[k]@.len() <= j < rows ==> (#[trigger] self.columns@[k]@[j])@ == Seq::<char>::empty(),
                self.selection == s0.selection,
            decreases n - i,
        {
            let mut column: Vec<String> = Vec::new();
        std::mem::swap(&mut column, &mut self.columns[i]);
            let ghost c0 = column;
            assert(c0@.len() <= rows) by {
                if i < s0.columns@.len() {
                    assert(s0.cells()[i as int].len() <= rows);
                }
            }
            while column.len() < rows
                invariant
                    c0@.len() <= column@.len() <= rows,
                    forall|j: int| 0 <= j < c0@.len() ==> #[trigger] column@[j] == c0@[j],
                    forall|j: int| c0@.len() <= j < column@.len() ==> (#[trigger] column@[j])@ == Seq::<char>::empty(),
                decreases rows - column@.len(),
            {
                column.push(String::new());
            }
            self.columns.set(i, column);
            i = i + 1;
        }
        let ghost s2 = *self;
        while self.row_heights.len() < rows
            invariant
                self.columns == s2.columns,
                self.selection == s2.selection,
            decreases rows - self.row_heights@.len(),
        {
            self.row_heights.push(DEFAULT_ROW_HEIGHT);
        }
        assert forall|a: Address| #[trigger] self.text(a) == s0.text(a) by {
            if a.x < s0.cells().len() && a.y < s0.cells()[a.x as int].len() {
                assert(self.cells()[a.x as int][a.y as int] == s0.cells()[a.x as int][a.y as int]);
            } else if a.x < self.cells().len() && a.y < self.cells()[a.x as int].len() {
                assert(self.cells()[a.x as int][a.y as int] == Seq::<char>::empty());
            }
        }
    }

    /// Sets the height of an existing row.
    pub fn set_row_height(&mut self, row: usize, height: u32)
        ensures
            final(self).spec_row_sizes() == if row < old(self).spec_row_sizes().len() {
                old(self).spec_row_sizes().update(row as int, height)
            } else {
                old(self).spec_row_sizes()
            },
            final(self).spec_column_sizes() == old(self).spec_column_sizes(),
            forall|a: Address| #[trigger] final(self).text(a) == old(self).text(a),
    {
        if row < self.row_heights.len() {
            self.row_heights.set(row, height);
        }
    }

    /// Sets the width of an existing column.
    pub fn set_column_width(&mut self, col: usize, width: u32)
        ensures
            final(self).spec_column_sizes() == if col < old(self).spec_column_sizes().len() {
                old(self).spec_column_sizes().update(col as int, width)
            } else {
                old(self).spec_column_sizes()
            },
            final(self).spec_row_sizes() == old(self).spec_row_sizes(),
            forall|a: Address| #[trigger] final(self).text(a) == old(self).text(a),
    {
        if col < self.col_widths.len() {
            self.col_widths.set(col, width);
        }
    }

    /// Selects one cell.
    pub fn select_cell(&mut self, cell: Address)
        ensures
            final(self).spec_selection() == (Range { start: cell, end: None }),
            forall|a: Address| #[trigger] final(self).text(a) == old(self).text(a),
    {
        self.selection = Range { start: cell, end: None };
    }

    /// The declared column widths.
    pub fn column_sizes(&self) -> (r: &Vec<u32>)
        ensures
            r@ == self.spec_column_sizes(),
    {
        &self.col_widths
    }

    /// The declared row heights.
    pub fn row_sizes(&self) -> (r: &Vec<u32>)
        ensures
            r@ == self.spec_row_sizes(),
    {
        &self.row_heights
    }

    /// The table's dirty flag.
    pub fn internal(&self) -> (r: &Internal)
        ensures
            r == self.spec_internal(),
    {
        &self.internal
    }

    pub closed spec fn spec_internal(&self) -> Internal {
        self.internal
    }

    /// Marks the content as changed, so that the table rebuilds its
    /// geometry on the next redraw.
    pub fn set_dirty(&mut self)
        ensures
            final(self).spec_internal().dirty(),
            forall|a: Address| #[trigger] final(self).text(a) == old(self).text(a),
    {
        self.internal.set_dirty();
    }

    /// Whether the content was dirty; it is clean afterwards.
    pub fn take_dirty(&mut self) -> (r: bool)
        ensures
            r == old(self).spec_internal().dirty(),
            !final(self).spec_internal().dirty(),
            forall|a: Address| #[trigger] final(self).text(a) == old(self).text(a),
    {
        self.internal.take_dirty()
    }
}

impl Default for Content {
    /// An empty table.
    fn default() -> (r: Content)
        ensures
            r.cells().len() == 0,
            r.spec_column_sizes().len() == 0,
            r.spec_row_sizes().len() == 0,
    {
        Content::from_range(&Range { start: Address { x: 0, y: 0 }, end: None })
    }
}

impl Tabular for Content {
    closed spec fn spec_selection(&self) -> Range {
        self.selection
    }

    closed spec fn spec_row_count(&self) -> usize {
        if self.columns@.len() == 0 { 0 } else { self.columns@[0]@.len() as usize }
    }

    closed spec fn spec_column_count(&self) -> usize {
        self.columns@.len() as usize
    }

    closed spec fn spec_column_sizes(&self) -> Seq<u32> {
        self.col_widths@
    }

    closed spec fn spec_row_sizes(&self) -> Seq<u32> {
        self.row_heights@
    }

    open spec fn spec_cell(&self, cell: Address) -> Seq<char> {
        self.text(cell)
    }

    fn row_count(&self) -> (r: usize) {
        if self.columns.len() == 0 { 0 } else { self.columns[0].len() }
    }

    fn column_count(&self) -> (r: usize) {
        self.columns.len()
    }

    fn selection(&self) -> (r: Range) {
        self.selection
    }

    fn select_range(&mut self, range: Range) {
        self.selection = range;
    }

    /// Selects from the first cell to the last.
    fn select_all(&mut self) {
        let rows = self.row_count();
        let cols = self.columns.len();
        let end = Address { x: if cols == 0 { 0 } else { cols - 1 }, y: if rows == 0 { 0 } else { rows - 1 } };
        self.selection = Range { start: Address { x: 0, y: 0 }, end: Some(end) };
    }

    fn clear_cell(&mut self, cell: Address) {
        if cell.x < self.columns.len() && cell.y < self.columns[cell.x].len() {
            let ghost s0 = *self;
            let mut column: Vec<String> = Vec::new();
        std::mem::swap(&mut column, &mut self.columns[cell.x]);
            column.set(cell.y, String::new());
            self.columns.set(cell.x, column);
            assert forall|a: Address| a != cell implies #[trigger] self.spec_cell(a) == s0.spec_cell(a) by {
                if a.x < self.cells().len() && a.x != cell.x {
                    assert(self.cells()[a.x as int] == s0.cells()[a.x as int]);
                }
            }
        }
    }

    fn size(&self, axis: Axis, index: usize) -> (r: Option<u32>) {
        match axis {
            Axis::Column => if index < self.col_widths.len() { Some(self.col_widths[index]) } else { None },
            Axis::Row => if index < self.row_heights.len() { Some(self.row_heights[index]) } else { None },
        }
    }

    fn set_size(&mut self, axis: Axis, index: usize, size: u32) {
        match axis {
            Axis::Column => self.col_widths.set(index, size),
            Axis::Row => self.row_heights.set(index, size),
        }
    }
}

} // verus!
