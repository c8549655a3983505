//! References to cells and rectangular ranges of cells.
use vstd::prelude::*;
use vstd::string::StringExecFns;

use crate::utils::{column_name, push_char, to_column_name};

verus! {

/// A reference to a cell in a table, by column (`x`) and row (`y`).
pub trait Reference: Sized {
    spec fn spec_x(&self) -> usize;

    spec fn spec_y(&self) -> usize;

    fn new(x: usize, y: usize) -> (r: Self)
        ensures
            r.spec_x() == x,
            r.spec_y() == y,
    ;

    fn x(&self) -> (r: usize)
        ensures
            r == self.spec_x(),
    ;

    fn y(&self) -> (r: usize)
        ensures
            r == self.spec_y(),
    ;

    fn as_tuple(&self) -> (r: (usize, usize))
        ensures
            r == (self.spec_x(), self.spec_y()),
    {
        (self.x(), self.y())
    }
}

/// A range of cells in a table: a start cell and an optional end cell.
pub trait ReferenceRange<K: Reference>: Sized {
    spec fn spec_start(&self) -> K;

    spec fn spec_end(&self) -> Option<K>;

    fn new(start: K, end: Option<K>) -> (r: Self)
        ensures
            r.spec_start() == start,
            r.spec_end() == end,
    ;

    fn start(&self) -> (r: K)
        ensures
            r == self.spec_start(),
    ;

    fn end(&self) -> (r: Option<K>)
        ensures
            r == self.spec_end(),
    ;

    /// Whether `other` lies in the rectangle from the start to the end (the
    /// start when there is no end), both inclusive, taken as they stand.
    fn contains(&self, other: &K) -> (r: bool)
        ensures
            r == ({
                let s = self.spec_start();
                let e = match self.spec_end() {
                    Some(e) => e,
                    None => s,
                };
                s.spec_x() <= other.spec_x() <= e.spec_x() && s.spec_y() <= other.spec_y()
                    <= e.spec_y()
            }),
    {
        let start = self.start();
        let end = match self.end() {
            Some(e) => e,
            None => self.start(),
        };
        (start.x() <= other.x() && other.x() <= end.x()) && (start.y() <= other.y() && other.y()
            <= end.y())
    }
}

/// The standard reference to a cell: a column and a row, both zero-based.
#[derive(Debug, Clone, Copy, Default, PartialEq, Eq, PartialOrd, Ord, Hash, Structural)]
pub struct Address {
    pub x: usize,
    pub y: usize,
}

impl Reference for Address {
    open spec fn spec_x(&self) -> usize {
        self.x
    }

    open spec fn spec_y(&self) -> usize {
        self.y
    }

    fn new(x: usize, y: usize) -> (r: Self) {
        Address { x, y }
    }

    fn x(&self) -> (r: usize) {
        self.x
    }

    fn y(&self) -> (r: usize) {
        self.y
    }
}

impl From<(usize, usize)> for Address {
    fn from(t: (usize, usize)) -> (r: Self) {
        Address { x: t.0, y: t.1 }
    }
}

impl vstd::std_specs::convert::FromSpecImpl<(usize, usize)> for Address {
    open spec fn obeys_from_spec() -> bool {
        true
    }

    open spec fn from_spec(t: (usize, usize)) -> Address {
        Address { x: t.0, y: t.1 }
    }
}

/// The decimal digits of `n`, most significant first.
pub open spec fn decimal(n: nat) -> Seq<char>
    decreases n,
{
    if n < 10 {
        seq![((48 + n) as u8) as char]
    } else {
        decimal(n / 10).push(((48 + n % 10) as u8) as char)
    }
}

/// The spreadsheet name of a cell: its column's letters, then its
/// one-based row number ("A1" for the cell (0, 0)).
pub open spec fn cell_name(a: Address) -> Seq<char> {
    column_name(a.x as nat) + decimal(a.y as nat + 1)
}

fn append_decimal(n: u128, s: &mut String)
    ensures
        final(s)@ == old(s)@ + decimal(n as nat),
    decreases n,
{
    if n >= 10 {
        append_decimal(n / 10, s);
    }
    let d: u8 = (n % 10) as u8;
    push_char(s, (48u8 + d) as char);
    assert(s@ =~= old(s)@ + decimal(n as nat));
}

impl Address {
    /// The range of this one cell.
    pub fn as_range(self) -> (r: Range)
        ensures
            r == (Range { start: self, end: None }),
    {
        Range { start: self, end: None }
    }

    /// The spreadsheet name of the cell, such as "A1" or "AB12".
    pub fn name(&self) -> (r: String)
        ensures
            r@ == cell_name(*self),
    {
        let mut s = to_column_name(self.x);
        append_decimal(self.y as u128 + 1, &mut s);
        s
    }
}

/// The standard range of cells: a start cell and, unless the range is one
/// cell, an end cell.
#[derive(Debug, Clone, Copy, Default, PartialEq, Structural)]
pub struct Range {
    pub start: Address,
    pub end: Option<Address>,
}

/// The cell at the far corner of `r`: its end, or its start when it has none.
pub open spec fn far(r: Range) -> Address {
    match r.end {
        Some(e) => e,
        None => r.start,
    }
}

pub open spec fn lesser(a: usize, b: usize) -> usize {
    if a <= b { a } else { b }
}

pub open spec fn greater(a: usize, b: usize) -> usize {
    if a <= b { b } else { a }
}

/// The least and greatest column and row that `r` spans.
pub open spec fn first_col(r: Range) -> usize { lesser(r.start.x, far(r).x) }

pub open spec fn last_col(r: Range) -> usize { greater(r.start.x, far(r).x) }

pub open spec fn first_row(r: Range) -> usize { lesser(r.start.y, far(r).y) }

pub open spec fn last_row(r: Range) -> usize { greater(r.start.y, far(r).y) }

/// The range with the same rectangle as `r`, its start at the least column
/// and row and its end at the greatest.
pub open spec fn normalized(r: Range) -> Range {
    Range {
        start: Address { x: first_col(r), y: first_row(r) },
        end: Some(Address { x: last_col(r), y: last_row(r) }),
    }
}

/// Whether `a` lies in the rectangle of `r`, taken as it stands.
pub open spec fn range_contains(r: Range, a: Address) -> bool {
    r.start.x <= a.x <= far(r).x && r.start.y <= a.y <= far(r).y
}

/// The number of columns and of rows that `r` spans.
pub open spec fn width(r: Range) -> nat { (last_col(r) - first_col(r) + 1) as nat }

pub open spec fn height(r: Range) -> nat { (last_row(r) - first_row(r) + 1) as nat }

/// The `k`-th cell of `r` in column-major order.
pub open spec fn cell_at(r: Range, k: int) -> Address {
    Address {
        x: (first_col(r) + k / height(r) as int) as usize,
        y: (first_row(r) + k % height(r) as int) as usize,
    }
}

/// The cells of `r`, column by column, each column from top to bottom.
pub open spec fn cells(r: Range) -> Seq<Address> {
    Seq::new(width(r) * height(r), |k: int| cell_at(r, k))
}

impl ReferenceRange<Address> for Range {
    open spec fn spec_start(&self) -> Address {
        self.start
    }

    open spec fn spec_end(&self) -> Option<Address> {
        self.end
    }

    fn new(start: Address, end: Option<Address>) -> (r: Self) {
        Range { start, end }
    }

    fn start(&self) -> (r: Address) {
        self.start
    }

    fn end(&self) -> (r: Option<Address>) {
        self.end
    }
}

impl Range {
    /// The range spanning the same cells, with its start at the least column
    /// and row and its end at the greatest.
    pub fn normalize(&self) -> (r: Range)
        ensures
            r == normalized(*self),
    {
        let mut start = self.start;
        let mut end = match self.end {
            Some(e) => e,
            None => start,
        };
        if end.x < start.x {
            let t = start.x;
            start.x = end.x;
            end.x = t;
        }
        if end.y < start.y {
            let t = start.y;
            start.y = end.y;
            end.y = t;
        }
        Range { start, end: Some(end) }
    }

    /// Every cell of the rectangle, column by column, each column from top
    /// to bottom.
    pub fn iter(&self) -> (r: Vec<Address>)
        requires
            width(*self) * height(*self) <= usize::MAX,
        ensures
            r@ == cells(*self),
    {
        let start = self.start;
        let end = match self.end {
            Some(e) => e,
            None => start,
        };
        let x0 = if start.x <= end.x { start.x } else { end.x };
        let x1 = if start.x <= end.x { end.x } else { start.x };
        let y0 = if start.y <= end.y { start.y } else { end.y };
        let y1 = if start.y <= end.y { end.y } else { start.y };
        let ghost h = height(*self) as int;
        let ghost wd = width(*self) as int;
        assert(wd * h <= usize::MAX);
        assert(h <= wd * h && wd <= wd * h) by (nonlinear_arith)
            requires wd >= 1, h >= 1;
        let w: usize = x1 - x0 + 1;
        let hh: usize = y1 - y0 + 1;
        let mut out: Vec<Address> = Vec::new();
        let mut i: usize = 0;
        while i < w
            invariant
                x0 == first_col(*self),
                x1 == last_col(*self),
                y0 == first_row(*self),
                y1 == last_row(*self),
                w == wd,
                hh == h,
                w == x1 - x0 + 1,
                hh == y1 - y0 + 1,
                w * h <= usize::MAX,
                0 <= i <= w,
                out@.len() == i * h,
                forall|k: int| 0 <= k < out@.len() ==> #[trigger] out@[k] == cell_at(*self, k),
            decreases w - i,
        {
            let mut j: usize = 0;
            while j < hh
                invariant
                    x0 == first_col(*self),
                    x1 == last_col(*self),
                    y0 == first_row(*self),
                    y1 == last_row(*self),
                    w == wd,
                    hh == h,
                    w == x1 - x0 + 1,
                    hh == y1 - y0 + 1,
                    0 <= i < w,
                    0 <= j <= hh,
                    out@.len() == i * h + j,
                    forall|k: int| 0 <= k < out@.len() ==> #[trigger] out@[k] == cell_at(*self, k),
                decreases hh - j,
            {
                proof {
                    let k = i * h + j;
                    vstd::arithmetic::div_mod::lemma_fundamental_div_mod_converse(
                        k,
                        h,
                        i as int,
                        j as int,
                    );
                    assert(cell_at(*self, k) == Address { x: (x0 + i) as usize, y: (y0 + j) as usize });
                }
                out.push(Address { x: x0 + i, y: y0 + j });
                j = j + 1;
            }
            assert((i + 1) * h == i * h + h) by (nonlinear_arith);
            i = i + 1;
        }
        assert(out@ =~= cells(*self));
        out
    }

    /// The name of the range: the names of its start and of its far corner,
    /// joined by a colon ("A1:B2").
    pub fn name(&self) -> (r: String)
        ensures
            r@ == cell_name(self.start) + ":"@ + cell_name(far(*self)),
    {
        let mut s = self.start.name();
        s.append(":");
        let e = match self.end {
            Some(e) => e,
            None => self.start,
        };
        let n = e.name();
        s.append(n.as_str());
        s
    }
}

/// Normalizing a range twice gives what normalizing it once gave, and a
/// normalized range has its start at or before its end on both axes.
pub proof fn lemma_normalize_idempotent(r: Range)
    ensures
        normalized(normalized(r)) == normalized(r),
        normalized(r).start.x <= far(normalized(r)).x,
        normalized(r).start.y <= far(normalized(r)).y,
{
}

proof fn lemma_cell_at(r: Range, k: int)
    requires
        0 <= k < width(r) * height(r),
    ensures
        0 <= k / (height(r) as int) < width(r),
        0 <= k % (height(r) as int) < height(r),
        cell_at(r, k).x == first_col(r) + k / (height(r) as int),
        cell_at(r, k).y == first_row(r) + k % (height(r) as int),
{
    let h = height(r) as int;
    let w = width(r) as int;
    vstd::arithmetic::div_mod::lemma_fundamental_div_mod(k, h);
    vstd::arithmetic::div_mod::lemma_div_pos_is_pos(k, h);
    vstd::arithmetic::div_mod::lemma_mod_bound(k, h);
    let q = k / h;
    assert(q < w) by (nonlinear_arith)
        requires k == h * q + k % h, k % h >= 0, k < w * h, h > 0;
}

/// The cells of a range are width times height distinct cells, each in the
/// normalized rectangle (and so in the range itself when its start is at or
/// before its end on both axes), and every cell of that rectangle is among
/// them.
pub proof fn lemma_cells_exact(r: Range)
    ensures
        cells(r).len() == width(r) * height(r),
        forall|i: int, j: int|
            0 <= i < j < cells(r).len() ==> cells(r)[i] != cells(r)[j],
        forall|k: int|
            0 <= k < cells(r).len() ==> range_contains(normalized(r), #[trigger] cells(r)[k]),
        r.start.x <= far(r).x && r.start.y <= far(r).y ==> forall|k: int|
            0 <= k < cells(r).len() ==> range_contains(r, #[trigger] cells(r)[k]),
        forall|a: Address|
            range_contains(normalized(r), a) ==> exists|k: int|
                0 <= k < cells(r).len() && #[trigger] cells(r)[k] == a,
{
    let h = height(r) as int;
    let w = width(r) as int;
    assert forall|i: int, j: int| 0 <= i < j < cells(r).len() implies cells(r)[i] != cells(r)[j] by {
        lemma_cell_at(r, i);
        lemma_cell_at(r, j);
        vstd::arithmetic::div_mod::lemma_fundamental_div_mod(i, h);
        vstd::arithmetic::div_mod::lemma_fundamental_div_mod(j, h);
    }
    assert forall|k: int| 0 <= k < cells(r).len() implies range_contains(
        normalized(r),
        #[trigger] cells(r)[k],
    ) by {
        lemma_cell_at(r, k);
    }
    assert forall|a: Address| range_contains(normalized(r), a) implies exists|k: int|
        0 <= k < cells(r).len() && #[trigger] cells(r)[k] == a by {
        let i = a.x - first_col(r);
        let j = a.y - first_row(r);
        let k = i * h + j;
        vstd::arithmetic::div_mod::lemma_fundamental_div_mod_converse(k, h, i, j);
        assert(k < w * h) by (nonlinear_arith)
            requires k == i * h + j, 0 <= i < w, 0 <= j < h;
        assert(cells(r)[k] == a);
    }
}

} // verus!
