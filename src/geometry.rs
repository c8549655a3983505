//! Sizes of tracks fitted to the available space, and hit-testing of cells
//! and dividers, in integer layout units.
use vstd::prelude::*;

use crate::reference::{far, Range};
use crate::utils::{Axis, DividerHit};

verus! {

/// A size in layout units.
#[derive(Debug, Clone, Copy, PartialEq, Eq, Default, Structural)]
pub struct Size {
    pub width: u32,
    pub height: u32,
}

/// A point in layout units, relative to the table's top-left corner.
#[derive(Debug, Clone, Copy, PartialEq, Eq, Default, Structural)]
pub struct Point {
    pub x: i64,
    pub y: i64,
}

/// A rectangle in layout units, relative to the table's top-left corner.
#[derive(Debug, Clone, Copy, PartialEq, Eq, Default, Structural)]
pub struct Rect {
    pub x: i64,
    pub y: i64,
    pub width: i64,
    pub height: i64,
}

/// The sum of a sequence of sizes.
pub open spec fn total(s: Seq<u32>) -> int
    decreases s.len(),
{
    if s.len() == 0 {
        0
    } else {
        total(s.drop_last()) + s.last()
    }
}

/// The sum of the first `k` sizes.
pub open spec fn prefix(s: Seq<u32>, k: int) -> int {
    total(s.subrange(0, k))
}

/// Where the track `i` ends once the sizes `raw` are fitted to `avail`
/// units: the running sum of the raw sizes through track `i`, scaled by
/// `avail / total(raw)` and rounded down; 0 everywhere when the raw sizes
/// sum to 0.
pub open spec fn boundary(raw: Seq<u32>, avail: u32, i: int) -> int {
    if total(raw) == 0 {
        0
    } else {
        prefix(raw, i + 1) * avail / total(raw)
    }
}

/// Where the track before `i` ends (0 for the first track).
pub open spec fn boundary_before(raw: Seq<u32>, avail: u32, i: int) -> int {
    if i == 0 { 0 } else { boundary(raw, avail, i - 1) }
}

/// The cumulative ends of all tracks.
pub open spec fn boundaries(raw: Seq<u32>, avail: u32) -> Seq<u32> {
    Seq::new(raw.len(), |i: int| boundary(raw, avail, i) as u32)
}

/// The fitted size of each track: the distance between consecutive ends.
pub open spec fn scaled_sizes(raw: Seq<u32>, avail: u32) -> Seq<u32> {
    Seq::new(raw.len(), |i: int| (boundary(raw, avail, i) - boundary_before(raw, avail, i)) as u32)
}

/// The raw size of each track: its declared size plus the spacing.
pub open spec fn raw_sizes(declared: Seq<u32>, spacing: u32) -> Seq<u32> {
    Seq::new(declared.len(), |i: int| (declared[i] + spacing) as u32)
}

/// Whether `s` never decreases.
pub open spec fn sorted(s: Seq<u32>) -> bool {
    forall|i: int, j: int| 0 <= i <= j < s.len() ==> s[i] <= s[j]
}

/// The first index whose entry is at least `v` (the length when there is
/// none).
pub open spec fn lower_bound(s: Seq<u32>, v: int) -> nat
    decreases s.len(),
{
    if s.len() == 0 {
        0
    } else if s[0] >= v {
        0
    } else {
        1 + lower_bound(s.drop_first(), v)
    }
}

/// The track under the coordinate `v`: the first whose end is at or past
/// `v`, or the last track when `v` lies past them all (0 when there are no
/// tracks).
pub open spec fn track_at(cum: Seq<u32>, v: int) -> nat {
    let i = lower_bound(cum, v);
    if i < cum.len() {
        i
    } else if cum.len() == 0 {
        0
    } else {
        (cum.len() - 1) as nat
    }
}

/// The largest distance, in layout units, at which a divider is hit.
pub const RESIZE_AREA: i64 = 4;

/// Whether `v` lies within the resize area of the divider at the end of
/// the track that ends at `end`. The divider sits half the spacing before
/// that end; the test is made on doubled coordinates, so it is exact.
pub open spec fn near_divider(end: u32, spacing: u32, v: int) -> bool {
    let d = 2 * v - (2 * end - spacing);
    -2 * RESIZE_AREA <= d <= 2 * RESIZE_AREA
}

/// The divider of one axis hit at `v`: among the one or two track ends
/// next to where `v` falls, the first whose divider is near `v`.
pub open spec fn divider_at(cum: Seq<u32>, spacing: u32, v: int) -> Option<nat> {
    let n = cum.len();
    let idx = lower_bound(cum, v);
    if n == 0 {
        None
    } else if idx >= n {
        if near_divider(cum[n - 1], spacing, v) { Some((n - 1) as nat) } else { None }
    } else if idx == 0 {
        if near_divider(cum[0], spacing, v) { Some(0nat) } else { None }
    } else if near_divider(cum[idx - 1], spacing, v) {
        Some((idx - 1) as nat)
    } else if near_divider(cum[idx as int], spacing, v) {
        Some(idx)
    } else {
        None
    }
}

pub open spec fn sat_sub(a: u32, b: u32) -> u32 {
    if a >= b { (a - b) as u32 } else { 0 }
}

/// The geometry of a table: the raw size of each column and row, their
/// sizes fitted to the available space, and where each one ends.
#[derive(Debug)]
pub struct Region {
    raw_rows: Vec<u32>,
    raw_columns: Vec<u32>,
    scaled_rows: Vec<u32>,
    scaled_columns: Vec<u32>,
    cumulative_x: Vec<u32>,
    cumulative_y: Vec<u32>,
    bounds: Size,
    spacing: Size,
}

impl Region {
    pub closed spec fn raw_columns(&self) -> Seq<u32> {
        self.raw_columns@
    }

    pub closed spec fn raw_rows(&self) -> Seq<u32> {
        self.raw_rows@
    }

    pub closed spec fn scaled_columns(&self) -> Seq<u32> {
        self.scaled_columns@
    }

    pub closed spec fn scaled_rows(&self) -> Seq<u32> {
        self.scaled_rows@
    }

    pub closed spec fn cumulative_x(&self) -> Seq<u32> {
        self.cumulative_x@
    }

    pub closed spec fn cumulative_y(&self) -> Seq<u32> {
        self.cumulative_y@
    }

    /// The space the tracks were last fitted to.
    pub closed spec fn bounds(&self) -> Size {
        self.bounds
    }

    pub closed spec fn spacing(&self) -> Size {
        self.spacing
    }

    /// The raw sizes of each axis sum to at most `u32::MAX`.
    pub open spec fn fits(&self) -> bool {
        &&& total(self.raw_columns()) <= u32::MAX
        &&& total(self.raw_rows()) <= u32::MAX
    }

    /// The raw sizes fit, and the tracks of each axis are fitted to the
    /// bounds.
    pub open spec fn wf(&self) -> bool {
        &&& self.fits()
        &&& self.raw_columns().len() <= usize::MAX
        &&& self.raw_rows().len() <= usize::MAX
        &&& self.cumulative_x() == boundaries(self.raw_columns(), self.bounds().width)
        &&& self.cumulative_y() == boundaries(self.raw_rows(), self.bounds().height)
        &&& self.scaled_columns() == scaled_sizes(self.raw_columns(), self.bounds().width)
        &&& self.scaled_rows() == scaled_sizes(self.raw_rows(), self.bounds().height)
    }
}

proof fn lemma_prefix_step(s: Seq<u32>, k: int)
    requires
        0 <= k < s.len(),
    ensures
        prefix(s, k + 1) == prefix(s, k) + s[k],
{
    assert(s.subrange(0, k + 1).drop_last() =~= s.subrange(0, k));
}

proof fn lemma_prefix_full(s: Seq<u32>)
    ensures
        prefix(s, s.len() as int) == total(s),
{
    assert(s.subrange(0, s.len() as int) =~= s);
}

proof fn lemma_prefix_mono(s: Seq<u32>, j: int, k: int)
    requires
        0 <= j <= k <= s.len(),
    ensures
        0 <= prefix(s, j) <= prefix(s, k),
    decreases k - j,
{
    if j < k {
        lemma_prefix_mono(s, j, k - 1);
        lemma_prefix_step(s, k - 1);
    } else {
        lemma_prefix_nonneg(s, j);
    }
}

proof fn lemma_prefix_nonneg(s: Seq<u32>, k: int)
    requires
        0 <= k <= s.len(),
    ensures
        prefix(s, k) >= 0,
    decreases k,
{
    if k > 0 {
        lemma_prefix_nonneg(s, k - 1);
        lemma_prefix_step(s, k - 1);
    } else {
        assert(s.subrange(0, 0) =~= Seq::<u32>::empty());
    }
}

/// The ends of the tracks are at least 0, at most the available space,
/// and never decrease.
proof fn lemma_boundary_bounds(raw: Seq<u32>, avail: u32, i: int, j: int)
    requires
        -1 <= i <= j < raw.len(),
    ensures
        0 <= boundary_before(raw, avail, i + 1) <= boundary_before(raw, avail, j + 1) <= avail,
{
    let t = total(raw);
    if t != 0 {
        lemma_prefix_mono(raw, i + 1, j + 1);
        lemma_prefix_mono(raw, j + 1, raw.len() as int);
        lemma_prefix_full(raw);
        let a = prefix(raw, i + 1);
        let b = prefix(raw, j + 1);
        vstd::arithmetic::mul::lemma_mul_inequality(a, b, avail as int);
        vstd::arithmetic::mul::lemma_mul_inequality(b, t, avail as int);
        vstd::arithmetic::mul::lemma_mul_nonnegative(a, avail as int);
        vstd::arithmetic::div_mod::lemma_div_is_ordered(a * avail, b * avail, t);
        vstd::arithmetic::div_mod::lemma_div_is_ordered(b * avail, t * avail, t);
        vstd::arithmetic::div_mod::lemma_div_pos_is_pos(a * avail, t);
        vstd::arithmetic::div_mod::lemma_div_multiples_vanish(avail as int, t);
        if i >= 0 {
            assert(boundary_before(raw, avail, i + 1) == a * avail / t);
        } else {
            assert(raw.subrange(0, 0) =~= Seq::<u32>::empty());
        }
        assert(boundary_before(raw, avail, j + 1) == b * avail / t);
    }
}

/// The sum of the raw sizes: at most `u32::MAX` where the caller says so.
fn sum_sizes(s: &Vec<u32>) -> (r: u64)
    requires
        total(s@) <= u32::MAX,
    ensures
        r == total(s@),
{
    let mut acc: u64 = 0;
    let mut i: usize = 0;
    while i < s.len()
        invariant
            0 <= i <= s@.len(),
            total(s@) <= u32::MAX,
            acc == prefix(s@, i as int),
        decreases s@.len() - i,
    {
        proof {
            lemma_prefix_step(s@, i as int);
            lemma_prefix_mono(s@, i + 1, s@.len() as int);
            lemma_prefix_full(s@);
        }
        acc = acc + s[i] as u64;
        i = i + 1;
    }
    proof {
        lemma_prefix_full(s@);
    }
    acc
}

/// Fits the raw sizes of one axis to `avail` units: returns where each
/// track ends and the fitted size of each.
fn scale_axis(raw: &Vec<u32>, avail: u32) -> (r: (Vec<u32>, Vec<u32>))
    requires
        total(raw@) <= u32::MAX,
    ensures
        r.0@ == boundaries(raw@, avail),
        r.1@ == scaled_sizes(raw@, avail),
{
    let t = sum_sizes(raw);
    let mut cum: Vec<u32> = Vec::new();
    let mut scaled: Vec<u32> = Vec::new();
    let mut p: u64 = 0;
    let mut prev: u32 = 0;
    let mut i: usize = 0;
    while i < raw.len()
        invariant
            0 <= i <= raw@.len(),
            t == total(raw@) <= u32::MAX,
            p == prefix(raw@, i as int),
            prev == boundary_before(raw@, avail, i as int),
            cum@.len() == i,
            scaled@.len() == i,
            forall|k: int| 0 <= k < i ==> #[trigger] cum@[k] == boundaries(raw@, avail)[k],
            forall|k: int| 0 <= k < i ==> #[trigger] scaled@[k] == scaled_sizes(raw@, avail)[k],
        decreases raw@.len() - i,
    {
        proof {
            lemma_prefix_step(raw@, i as int);
            lemma_prefix_mono(raw@, i + 1, raw@.len() as int);
            lemma_prefix_full(raw@);
            lemma_boundary_bounds(raw@, avail, i - 1, i as int);
        }
        p = p + raw[i] as u64;
        let b: u32 = if t == 0 {
            0
        } else {
            proof {
                vstd::arithmetic::mul::lemma_mul_upper_bound(
                    p as int,
                    u32::MAX as int,
                    avail as int,
                    u32::MAX as int,
                );
            }
            (p * (avail as u64) / t) as u32
        };
        assert(b == boundary(raw@, avail, i as int));
        cum.push(b);
        scaled.push(b - prev);
        prev = b;
        i = i + 1;
    }
    assert(cum@ =~= boundaries(raw@, avail));
    assert(scaled@ =~= scaled_sizes(raw@, avail));
    (cum, scaled)
}

/// The sum of the raw sizes (declared size plus spacing) of `declared`.
pub open spec fn raw_total(declared: Seq<u32>, spacing: u32) -> int
    decreases declared.len(),
{
    if declared.len() == 0 {
        0
    } else {
        raw_total(declared.drop_last(), spacing) + declared.last() + spacing
    }
}

proof fn lemma_raw_total_prefix(d: Seq<u32>, s: u32, k: int)
    requires
        0 <= k <= d.len(),
    ensures
        raw_total(d.subrange(0, k), s) <= raw_total(d, s),
    decreases d.len(),
{
    if k < d.len() {
        assert(d.drop_last().subrange(0, k) =~= d.subrange(0, k));
        lemma_raw_total_prefix(d.drop_last(), s, k);
    } else {
        assert(d.subrange(0, k) =~= d);
    }
}

proof fn lemma_raw_total_sizes(d: Seq<u32>, s: u32)
    requires
        raw_total(d, s) <= u32::MAX,
    ensures
        total(raw_sizes(d, s)) == raw_total(d, s),
        raw_total(d, s) >= 0,
    decreases d.len(),
{
    if d.len() > 0 {
        lemma_raw_total_prefix(d, s, d.len() - 1);
        assert(d.subrange(0, d.len() - 1) =~= d.drop_last());
        lemma_raw_total_sizes(d.drop_last(), s);
        assert(raw_sizes(d, s).drop_last() =~= raw_sizes(d.drop_last(), s));
        assert(raw_sizes(d, s).last() == d.last() + s);
    } else {
        assert(raw_sizes(d, s) =~= Seq::<u32>::empty());
    }
}

/// The raw sizes of `declared` with `spacing` added to each, or `None`
/// when they sum to more than `u32::MAX`.
fn build_raw(declared: &Vec<u32>, spacing: u32) -> (r: Option<Vec<u32>>)
    ensures
        r is Some <==> raw_total(declared@, spacing) <= u32::MAX,
        r is Some ==> r->0@ == raw_sizes(declared@, spacing),
{
    let mut out: Vec<u32> = Vec::new();
    let mut acc: u64 = 0;
    let mut i: usize = 0;
    while i < declared.len()
        invariant
            0 <= i <= declared@.len(),
            acc == raw_total(declared@.subrange(0, i as int), spacing),
            acc <= u32::MAX,
            out@ == raw_sizes(declared@.subrange(0, i as int), spacing),
        decreases declared@.len() - i,
    {
        let ghost next = declared@.subrange(0, i + 1);
        assert(next.drop_last() =~= declared@.subrange(0, i as int));
        let v: u64 = acc + declared[i] as u64 + spacing as u64;
        if v > u32::MAX as u64 {
            proof {
                lemma_raw_total_prefix(declared@, spacing, i + 1);
            }
            return None;
        }
        out.push(declared[i] + spacing);
        acc = v;
        i = i + 1;
        assert(out@ =~= raw_sizes(declared@.subrange(0, i as int), spacing));
    }
    assert(declared@.subrange(0, i as int) =~= declared@);
    Some(out)
}

proof fn lemma_boundaries_sorted(raw: Seq<u32>, avail: u32)
    ensures
        sorted(boundaries(raw, avail)),
        forall|i: int| 0 <= i < raw.len() ==> #[trigger] boundaries(raw, avail)[i] <= avail,
{
    assert forall|i: int, j: int| 0 <= i <= j < raw.len() implies boundaries(raw, avail)[i]
        <= boundaries(raw, avail)[j] by {
        lemma_boundary_bounds(raw, avail, i, j);
    }
    assert forall|i: int| 0 <= i < raw.len() implies #[trigger] boundaries(raw, avail)[i]
        <= avail by {
        lemma_boundary_bounds(raw, avail, i, i);
    }
}

/// For a sorted sequence, an index with only smaller entries before it and
/// no smaller entry at it is the lower bound.
proof fn lemma_lower_bound_char(s: Seq<u32>, v: int, i: int)
    requires
        0 <= i <= s.len(),
        forall|j: int| 0 <= j < i ==> s[j] < v,
        i < s.len() ==> s[i] >= v,
    ensures
        lower_bound(s, v) == i,
    decreases s.len(),
{
    if s.len() > 0 && i > 0 {
        lemma_lower_bound_char(s.drop_first(), v, i - 1);
    }
}

proof fn lemma_lower_bound_bound(s: Seq<u32>, v: int)
    ensures
        lower_bound(s, v) <= s.len(),
        forall|j: int| 0 <= j < lower_bound(s, v) ==> s[j] < v,
        lower_bound(s, v) < s.len() ==> s[lower_bound(s, v) as int] >= v,
    decreases s.len(),
{
    if s.len() > 0 && s[0] < v {
        lemma_lower_bound_bound(s.drop_first(), v);
        assert forall|j: int| 0 <= j < lower_bound(s, v) implies s[j] < v by {
            if j > 0 {
                assert(s[j] == s.drop_first()[j - 1]);
            }
        }
    }
}

/// The first index of the sorted `s` whose entry is at least `v`.
fn search(s: &Vec<u32>, v: i64) -> (r: usize)
    requires
        sorted(s@),
    ensures
        r == lower_bound(s@, v as int),
{
    let mut lo: usize = 0;
    let mut hi: usize = s.len();
    while lo < hi
        invariant
            0 <= lo <= hi <= s@.len(),
            sorted(s@),
            forall|j: int| 0 <= j < lo ==> s@[j] < v,
            forall|j: int| hi <= j < s@.len() ==> s@[j] >= v,
        decreases hi - lo,
    {
        let mid = lo + (hi - lo) / 2;
        if (s[mid] as i64) < v {
            lo = mid + 1;
        } else {
            hi = mid;
        }
    }
    proof {
        lemma_lower_bound_char(s@, v as int, lo as int);
    }
    lo
}

fn track(s: &Vec<u32>, v: i64) -> (r: usize)
    requires
        sorted(s@),
    ensures
        r == track_at(s@, v as int),
{
    proof {
        lemma_lower_bound_bound(s@, v as int);
    }
    let i = search(s, v);
    if i < s.len() {
        i
    } else if s.len() == 0 {
        0
    } else {
        s.len() - 1
    }
}

fn near(end: u32, spacing: u32, v: i64) -> (r: bool)
    ensures
        r == near_divider(end, spacing, v as int),
{
    let d: i128 = 2 * (v as i128) - (2 * (end as i128) - spacing as i128);
    let limit: i128 = 2 * (RESIZE_AREA as i128);
    -limit <= d && d <= limit
}

fn divider(cum: &Vec<u32>, spacing: u32, v: i64) -> (r: Option<usize>)
    requires
        sorted(cum@),
    ensures
        match r {
            Some(i) => divider_at(cum@, spacing, v as int) == Some(i as nat),
            None => divider_at(cum@, spacing, v as int) is None,
        },
{
    let n = cum.len();
    if n == 0 {
        return None;
    }
    proof {
        lemma_lower_bound_bound(cum@, v as int);
    }
    let idx = search(cum, v);
    if idx >= n {
        if near(cum[n - 1], spacing, v) { Some(n - 1) } else { None }
    } else if idx == 0 {
        if near(cum[0], spacing, v) { Some(0) } else { None }
    } else if near(cum[idx - 1], spacing, v) {
        Some(idx - 1)
    } else if near(cum[idx], spacing, v) {
        Some(idx)
    } else {
        None
    }
}

fn size_or_zero(s: &Vec<u32>, i: usize) -> (r: u32)
    ensures
        r == (if i < s@.len() { s@[i as int] } else { 0 }),
{
    if i < s.len() { s[i] } else { 0 }
}

fn end_before(cum: &Vec<u32>, i: usize) -> (r: u32)
    ensures
        r == (if i == 0 { 0 } else if i - 1 < cum@.len() { cum@[i - 1] } else { 0 }),
{
    if i == 0 {
        0
    } else if i - 1 < cum.len() {
        cum[i - 1]
    } else {
        0
    }
}

/// The divider hit at `pos`: a column divider if one is near `pos.x`, else
/// a row divider near `pos.y`, with the raw size of its track.
pub open spec fn divider_hit(
    cum_x: Seq<u32>,
    cum_y: Seq<u32>,
    raw_columns: Seq<u32>,
    raw_rows: Seq<u32>,
    spacing: Size,
    pos: Point,
) -> Option<DividerHit> {
    match divider_at(cum_x, spacing.width, pos.x as int) {
        Some(i) => Some(
            DividerHit {
                axis: Axis::Column,
                index: i as usize,
                original_size: raw_columns[i as int],
            },
        ),
        None => match divider_at(cum_y, spacing.height, pos.y as int) {
            Some(i) => Some(
                DividerHit {
                    axis: Axis::Row,
                    index: i as usize,
                    original_size: raw_rows[i as int],
                },
            ),
            None => None,
        },
    }
}

/// Where the track before `i` ends, as stored: 0 for the first track and
/// for a track past the end.
pub open spec fn start_of(cum: Seq<u32>, i: int) -> int {
    if i == 0 { 0 } else if i - 1 < cum.len() { cum[i - 1] as int } else { 0 }
}

/// The rectangle that the cells of `r` cover, inset by half the spacing;
/// the empty rectangle when `r` reaches past the table.
pub open spec fn selection_rect(cum_x: Seq<u32>, cum_y: Seq<u32>, spacing: Size, r: Range) -> Rect {
    let min_col = if r.start.x <= far(r).x { r.start.x } else { far(r).x };
    let max_col = if r.start.x <= far(r).x { far(r).x } else { r.start.x };
    let min_row = if r.start.y <= far(r).y { r.start.y } else { far(r).y };
    let max_row = if r.start.y <= far(r).y { far(r).y } else { r.start.y };
    let x = start_of(cum_x, min_col as int);
    let y = start_of(cum_y, min_row as int);
    let hx = spacing.width / 2;
    let hy = spacing.height / 2;
    if max_col < cum_x.len() && max_row < cum_y.len() {
        Rect {
            x: (x + hx) as i64,
            y: (y + hy) as i64,
            width: (cum_x[max_col as int] - x - hx) as i64,
            height: (cum_y[max_row as int] - y - hy) as i64,
        }
    } else {
        Rect { x: 0, y: 0, width: 0, height: 0 }
    }
}

/// A pointer movement of `d` layout units in raw units, for an axis whose
/// raw sizes sum to `t` and which is fitted to `avail` units: `d * t /
/// avail`, rounded toward zero and clamped to the `i64` range; 0 when
/// nothing is fitted.
pub open spec fn raw_delta(d: int, t: int, avail: u32) -> int {
    if avail == 0 {
        0
    } else {
        let m = if d >= 0 { d * t / (avail as int) } else { -((-d) * t / (avail as int)) };
        if m > i64::MAX { i64::MAX as int } else if m < i64::MIN { i64::MIN as int } else { m }
    }
}

impl Region {
    /// A region with the given declared column and row sizes, spacing added
    /// to each, fitted to no space yet; `None` when the raw sizes of an axis
    /// sum to more than `u32::MAX`.
    pub fn new(columns: &Vec<u32>, rows: &Vec<u32>, spacing: Size) -> (r: Option<Region>)
        ensures
            r is Some <==> (raw_total(columns@, spacing.width) <= u32::MAX && raw_total(
                rows@,
                spacing.height,
            ) <= u32::MAX),
            r matches Some(g) ==> {
                &&& g.wf()
                &&& g.raw_columns() == raw_sizes(columns@, spacing.width)
                &&& g.raw_rows() == raw_sizes(rows@, spacing.height)
                &&& g.bounds() == Size { width: 0, height: 0 }
                &&& g.spacing() == spacing
            },
    {
        let raw_columns = match build_raw(columns, spacing.width) {
            Some(v) => v,
            None => {
                return None;
            },
        };
        let raw_rows = match build_raw(rows, spacing.height) {
            Some(v) => v,
            None => {
                return None;
            },
        };
        proof {
            lemma_raw_total_sizes(columns@, spacing.width);
            lemma_raw_total_sizes(rows@, spacing.height);
            assert(raw_columns@.len() == raw_columns.len());
            assert(raw_rows@.len() == raw_rows.len());
        }
        let (cumulative_x, scaled_columns) = scale_axis(&raw_columns, 0);
        let (cumulative_y, scaled_rows) = scale_axis(&raw_rows, 0);
        Some(
            Region {
                raw_rows,
                raw_columns,
                scaled_rows,
                scaled_columns,
                cumulative_x,
                cumulative_y,
                bounds: Size { width: 0, height: 0 },
                spacing,
            },
        )
    }

    /// A region with no columns and no rows.
    pub fn empty(spacing: Size) -> (r: Region)
        ensures
            r.wf(),
            r.raw_columns().len() == 0,
            r.raw_rows().len() == 0,
            r.spacing() == spacing,
    {
        let r = Region {
            raw_rows: Vec::new(),
            raw_columns: Vec::new(),
            scaled_rows: Vec::new(),
            scaled_columns: Vec::new(),
            cumulative_x: Vec::new(),
            cumulative_y: Vec::new(),
            bounds: Size { width: 0, height: 0 },
            spacing,
        };
        assert(r.cumulative_x@ =~= boundaries(r.raw_columns@, 0));
        assert(r.cumulative_y@ =~= boundaries(r.raw_rows@, 0));
        assert(r.scaled_columns@ =~= scaled_sizes(r.raw_columns@, 0));
        assert(r.scaled_rows@ =~= scaled_sizes(r.raw_rows@, 0));
        r
    }

    /// The number of columns.
    pub fn column_count(&self) -> (r: usize)
        ensures
            r == self.raw_columns().len(),
    {
        self.raw_columns.len()
    }

    /// The number of rows.
    pub fn row_count(&self) -> (r: usize)
        ensures
            r == self.raw_rows().len(),
    {
        self.raw_rows.len()
    }

    /// Fits the tracks to `bounds`, keeping the proportions of their raw
    /// sizes, and takes `spacing` as the spacing between cells.
    pub fn scale_to_bounds(&mut self, bounds: Size, spacing: Size)
        requires
            old(self).fits(),
        ensures
            final(self).wf(),
            final(self).raw_columns() == old(self).raw_columns(),
            final(self).raw_rows() == old(self).raw_rows(),
            final(self).bounds() == bounds,
            final(self).spacing() == spacing,
    {
        let (cx, sc) = scale_axis(&self.raw_columns, bounds.width);
        let (cy, sr) = scale_axis(&self.raw_rows, bounds.height);
        self.cumulative_x = cx;
        self.scaled_columns = sc;
        self.cumulative_y = cy;
        self.scaled_rows = sr;
        self.bounds = bounds;
        self.spacing = spacing;
        assert(self.raw_columns@.len() == self.raw_columns.len());
        assert(self.raw_rows@.len() == self.raw_rows.len());
    }

    /// Where each column ends, from the left edge.
    pub fn column_ends(&self) -> (r: &Vec<u32>)
        ensures
            r@ == self.cumulative_x(),
    {
        &self.cumulative_x
    }

    /// Where each row ends, from the top edge.
    pub fn row_ends(&self) -> (r: &Vec<u32>)
        ensures
            r@ == self.cumulative_y(),
    {
        &self.cumulative_y
    }

    /// The space the tracks were last fitted to.
    pub fn current_bounds(&self) -> (r: Size)
        ensures
            r == self.bounds(),
    {
        self.bounds
    }

    /// The sum of the raw column sizes.
    pub fn total_raw_width(&self) -> (r: u64)
        requires
            self.wf(),
        ensures
            r == total(self.raw_columns()),
    {
        sum_sizes(&self.raw_columns)
    }

    /// The sum of the raw row sizes.
    pub fn total_raw_height(&self) -> (r: u64)
        requires
            self.wf(),
        ensures
            r == total(self.raw_rows()),
    {
        sum_sizes(&self.raw_rows)
    }

    /// The size of a cell without its spacing, at least 0; 0 on an axis
    /// whose index lies past the table.
    pub fn cell_size(&self, row: usize, col: usize) -> (r: Size)
        ensures
            r.width == sat_sub(
                if col < self.scaled_columns().len() { self.scaled_columns()[col as int] } else { 0 },
                self.spacing().width,
            ),
            r.height == sat_sub(
                if row < self.scaled_rows().len() { self.scaled_rows()[row as int] } else { 0 },
                self.spacing().height,
            ),
    {
        let w = size_or_zero(&self.scaled_columns, col);
        let h = size_or_zero(&self.scaled_rows, row);
        Size {
            width: if w >= self.spacing.width { w - self.spacing.width } else { 0 },
            height: if h >= self.spacing.height { h - self.spacing.height } else { 0 },
        }
    }

    /// The top-left corner of a cell: the end of the track before it, inset
    /// by half the spacing.
    pub fn cell_position(&self, row: usize, col: usize) -> (r: Point)
        ensures
            r.x == start_of(self.cumulative_x(), col as int) + self.spacing().width / 2,
            r.y == start_of(self.cumulative_y(), row as int) + self.spacing().height / 2,
    {
        let x = end_before(&self.cumulative_x, col);
        let y = end_before(&self.cumulative_y, row);
        Point {
            x: x as i64 + (self.spacing.width / 2) as i64,
            y: y as i64 + (self.spacing.height / 2) as i64,
        }
    }

    /// The cell under `pos`, as (column, row): on each axis the first track
    /// whose end is at or past the coordinate, or the last track.
    pub fn find_cell(&self, pos: Point) -> (r: (usize, usize))
        requires
            self.wf(),
        ensures
            r.0 == track_at(self.cumulative_x(), pos.x as int),
            r.1 == track_at(self.cumulative_y(), pos.y as int),
    {
        proof {
            lemma_boundaries_sorted(self.raw_columns(), self.bounds().width);
            lemma_boundaries_sorted(self.raw_rows(), self.bounds().height);
        }
        let col = track(&self.cumulative_x, pos.x);
        let row = track(&self.cumulative_y, pos.y);
        (col, row)
    }

    /// The divider near `pos`, if any: column dividers come first.
    pub fn find_nearest_divider(&self, pos: Point) -> (r: Option<DividerHit>)
        requires
            self.wf(),
        ensures
            r == divider_hit(
                self.cumulative_x(),
                self.cumulative_y(),
                self.raw_columns(),
                self.raw_rows(),
                self.spacing(),
                pos,
            ),
    {
        proof {
            lemma_boundaries_sorted(self.raw_columns(), self.bounds().width);
            lemma_boundaries_sorted(self.raw_rows(), self.bounds().height);
        }
        match divider(&self.cumulative_x, self.spacing.width, pos.x) {
            Some(i) => {
                Some(DividerHit { axis: Axis::Column, index: i, original_size: self.raw_columns[i] })
            },
            None => match divider(&self.cumulative_y, self.spacing.height, pos.y) {
                Some(i) => {
                    Some(DividerHit { axis: Axis::Row, index: i, original_size: self.raw_rows[i] })
                },
                None => None,
            },
        }
    }

    /// The rectangle covering the cells of `selection`, or the empty
    /// rectangle when it reaches past the table.
    pub fn selection_bounds(&self, selection: &Range) -> (r: Rect)
        requires
            self.wf(),
        ensures
            r == selection_rect(self.cumulative_x(), self.cumulative_y(), self.spacing(), *selection),
    {
        proof {
            lemma_boundaries_sorted(self.raw_columns(), self.bounds().width);
            lemma_boundaries_sorted(self.raw_rows(), self.bounds().height);
        }
        let start = selection.start;
        let end = match selection.end {
            Some(e) => e,
            None => selection.start,
        };
        let min_row = if start.y <= end.y { start.y } else { end.y };
        let max_row = if start.y <= end.y { end.y } else { start.y };
        let min_col = if start.x <= end.x { start.x } else { end.x };
        let max_col = if start.x <= end.x { end.x } else { start.x };
        let x = end_before(&self.cumulative_x, min_col) as i64;
        let y = end_before(&self.cumulative_y, min_row) as i64;
        let hx = (self.spacing.width / 2) as i64;
        let hy = (self.spacing.height / 2) as i64;
        if max_col < self.cumulative_x.len() && max_row < self.cumulative_y.len() {
            Rect {
                x: x + hx,
                y: y + hy,
                width: self.cumulative_x[max_col] as i64 - x - hx,
                height: self.cumulative_y[max_row] as i64 - y - hy,
            }
        } else {
            Rect { x: 0, y: 0, width: 0, height: 0 }
        }
    }

    /// A pointer movement from `from` to `to` along `axis`, in raw units.
    pub fn raw_delta(&self, axis: Axis, from: i64, to: i64) -> (r: i64)
        requires
            self.wf(),
        ensures
            r == (match axis {
                Axis::Column => raw_delta(to - from, total(self.raw_columns()), self.bounds().width),
                Axis::Row => raw_delta(to - from, total(self.raw_rows()), self.bounds().height),
            }),
    {
        let (t, avail) = match axis {
            Axis::Column => (sum_sizes(&self.raw_columns), self.bounds.width),
            Axis::Row => (sum_sizes(&self.raw_rows), self.bounds.height),
        };
        if avail == 0 {
            return 0;
        }
        let d: i128 = to as i128 - from as i128;
        let mag: u128 = if d >= 0 { d as u128 } else { (-d) as u128 };
        proof {
            vstd::arithmetic::mul::lemma_mul_upper_bound(
                mag as int,
                0x1_0000_0000_0000_0000,
                t as int,
                u32::MAX as int,
            );
        }
        let q: u128 = mag * (t as u128) / (avail as u128);
        if d >= 0 {
            if q > i64::MAX as u128 { i64::MAX } else { q as i64 }
        } else {
            if q > 0x8000_0000_0000_0000u128 { i64::MIN } else { (0 - (q as i128)) as i64 }
        }
    }

    /// Sets the raw size of a track, capped so that the raw sizes of its
    /// axis still sum to at most `u32::MAX`, and fits the tracks again to
    /// the same bounds. An index past the table changes nothing.
    pub fn set_raw_size(&mut self, axis: Axis, index: usize, size: u32)
        requires
            old(self).wf(),
        ensures
            final(self).wf(),
            final(self).bounds() == old(self).bounds(),
            final(self).spacing() == old(self).spacing(),
            axis == Axis::Column ==> final(self).raw_rows() == old(self).raw_rows(),
            axis == Axis::Row ==> final(self).raw_columns() == old(self).raw_columns(),
            axis == Axis::Column ==> final(self).raw_columns() == with_raw_size(
                old(self).raw_columns(),
                index as int,
                size,
            ),
            axis == Axis::Row ==> final(self).raw_rows() == with_raw_size(
                old(self).raw_rows(),
                index as int,
                size,
            ),
    {
        match axis {
            Axis::Column => {
                if index < self.raw_columns.len() {
                    let v = cap_size(&self.raw_columns, index, size);
                    proof {
                        lemma_total_update(self.raw_columns@, index as int, v);
                    }
                    self.raw_columns.set(index, v);
                }
            },
            Axis::Row => {
                if index < self.raw_rows.len() {
                    let v = cap_size(&self.raw_rows, index, size);
                    proof {
                        lemma_total_update(self.raw_rows@, index as int, v);
                    }
                    self.raw_rows.set(index, v);
                }
            },
        }
        let b = self.bounds;
        let s = self.spacing;
        self.scale_to_bounds(b, s);
    }
}

/// `s` with the size at `i` set to `size`, capped so that the sum stays
/// within `u32::MAX`; `s` itself when `i` lies past its end.
pub open spec fn with_raw_size(s: Seq<u32>, i: int, size: u32) -> Seq<u32> {
    if 0 <= i < s.len() {
        s.update(i, capped(s, i, size))
    } else {
        s
    }
}

/// `size`, capped so that putting it at `i` keeps the sum of `s` within
/// `u32::MAX`.
pub open spec fn capped(s: Seq<u32>, i: int, size: u32) -> u32 {
    let room = u32::MAX - (total(s) - s[i]);
    if size > room { room as u32 } else { size }
}

proof fn lemma_total_update(s: Seq<u32>, i: int, v: u32)
    requires
        0 <= i < s.len(),
    ensures
        total(s.update(i, v)) == total(s) - s[i] + v,
    decreases s.len(),
{
    if i < s.len() - 1 {
        assert(s.update(i, v).drop_last() =~= s.drop_last().update(i, v));
        lemma_total_update(s.drop_last(), i, v);
    } else {
        assert(s.update(i, v).drop_last() =~= s.drop_last());
    }
}

proof fn lemma_entry_le_total(s: Seq<u32>, i: int)
    requires
        0 <= i < s.len(),
    ensures
        s[i] <= total(s),
{
    lemma_prefix_step(s, i);
    lemma_prefix_nonneg(s, i);
    lemma_prefix_mono(s, i + 1, s.len() as int);
    lemma_prefix_full(s);
}

fn cap_size(s: &Vec<u32>, i: usize, size: u32) -> (r: u32)
    requires
        i < s@.len(),
        total(s@) <= u32::MAX,
    ensures
        r == capped(s@, i as int, size),
        total(s@) - s@[i as int] + r <= u32::MAX,
{
    proof {
        lemma_entry_le_total(s@, i as int);
    }
    let t = sum_sizes(s);
    let room: u64 = u32::MAX as u64 - (t - s[i] as u64);
    if size as u64 > room { room as u32 } else { size }
}

proof fn lemma_boundary_before_formula(raw: Seq<u32>, avail: u32, i: int)
    requires
        total(raw) > 0,
        0 <= i <= raw.len(),
    ensures
        boundary_before(raw, avail, i) == prefix(raw, i) * avail / total(raw),
{
    if i == 0 {
        assert(raw.subrange(0, 0) =~= Seq::<u32>::empty());
    }
}

/// Fitting keeps proportions: the fitted size of each track, times the sum
/// of the raw sizes, lies within that sum of its raw size times the
/// available space. So a track with twice the raw size of another gets
/// twice its fitted size, give or take 2 units.
pub proof fn lemma_scaled_proportional(raw: Seq<u32>, avail: u32, i: int, j: int)
    requires
        total(raw) > 0,
        0 <= i < raw.len(),
        0 <= j < raw.len(),
    ensures
        raw[i] * avail - total(raw) < scaled_sizes(raw, avail)[i] * total(raw) < raw[i] * avail
            + total(raw),
        raw[i] == 2 * raw[j] ==> -3 < scaled_sizes(raw, avail)[i] - 2 * scaled_sizes(raw, avail)[j]
            < 3,
{
    lemma_one_proportional(raw, avail, i);
    lemma_one_proportional(raw, avail, j);
    let t = total(raw);
    let si = scaled_sizes(raw, avail)[i] as int;
    let sj = scaled_sizes(raw, avail)[j] as int;
    let ri = raw[i] as int;
    let rj = raw[j] as int;
    let a = avail as int;
    if ri == 2 * rj {
        assert(-3 < si - 2 * sj < 3) by (nonlinear_arith)
            requires
                t > 0,
                ri * a - t < si * t < ri * a + t,
                rj * a - t < sj * t < rj * a + t,
                ri == 2 * rj,
        ;
    }
}

proof fn lemma_one_proportional(raw: Seq<u32>, avail: u32, i: int)
    requires
        total(raw) > 0,
        0 <= i < raw.len(),
    ensures
        raw[i] * avail - total(raw) < scaled_sizes(raw, avail)[i] * total(raw) < raw[i] * avail
            + total(raw),
{
    let t = total(raw);
    let av = avail as int;
    lemma_boundary_bounds(raw, avail, i - 1, i);
    lemma_boundary_before_formula(raw, avail, i);
    lemma_boundary_before_formula(raw, avail, i + 1);
    lemma_prefix_step(raw, i);
    let pa = prefix(raw, i + 1) * av;
    let pb = prefix(raw, i) * av;
    vstd::arithmetic::div_mod::lemma_fundamental_div_mod(pa, t);
    vstd::arithmetic::div_mod::lemma_fundamental_div_mod(pb, t);
    vstd::arithmetic::div_mod::lemma_mod_bound(pa, t);
    vstd::arithmetic::div_mod::lemma_mod_bound(pb, t);
    vstd::arithmetic::mul::lemma_mul_is_distributive_add_other_way(
        av,
        prefix(raw, i),
        raw[i] as int,
    );
    let s = scaled_sizes(raw, avail)[i] as int;
    assert(s == pa / t - pb / t);
    let r = raw[i] as int;
    assert(r * av - t < s * t < r * av + t) by (nonlinear_arith)
        requires
            s == pa / t - pb / t,
            pa == t * (pa / t) + pa % t,
            pb == t * (pb / t) + pb % t,
            0 <= pa % t < t,
            0 <= pb % t < t,
            pa - pb == r * av,
    ;
}

proof fn lemma_scaled_prefix(raw: Seq<u32>, avail: u32, k: int)
    requires
        0 <= k <= raw.len(),
    ensures
        prefix(scaled_sizes(raw, avail), k) == boundary_before(raw, avail, k),
    decreases k,
{
    if k == 0 {
        assert(scaled_sizes(raw, avail).subrange(0, 0) =~= Seq::<u32>::empty());
    } else {
        lemma_scaled_prefix(raw, avail, k - 1);
        lemma_prefix_step(scaled_sizes(raw, avail), k - 1);
        lemma_boundary_bounds(raw, avail, k - 2, k - 1);
    }
}

/// The fitted sizes of an axis whose raw sizes sum to more than 0 sum to
/// exactly the available space.
pub proof fn lemma_scaled_sum(raw: Seq<u32>, avail: u32)
    requires
        total(raw) > 0,
    ensures
        total(scaled_sizes(raw, avail)) == avail,
{
    let n = raw.len() as int;
    assert(n > 0) by {
        if n == 0 {
            assert(raw =~= Seq::<u32>::empty());
        }
    }
    lemma_scaled_prefix(raw, avail, n);
    lemma_prefix_full(scaled_sizes(raw, avail));
    lemma_boundary_before_formula(raw, avail, n);
    lemma_prefix_full(raw);
    vstd::arithmetic::div_mod::lemma_div_multiples_vanish(avail as int, total(raw));
}

proof fn lemma_lower_bound_mono(s: Seq<u32>, v: int, w: int)
    requires
        v <= w,
    ensures
        lower_bound(s, v) <= lower_bound(s, w),
    decreases s.len(),
{
    if s.len() > 0 && s[0] < v {
        lemma_lower_bound_mono(s.drop_first(), v, w);
    }
}

/// Hit-testing is monotonic: moving a point right (down) never moves the
/// cell found under it left (up), and leaves its row (column) as it was.
pub proof fn lemma_find_cell_monotone(g: Region, p: Point, q: Point)
    requires
        g.wf(),
    ensures
        p.x <= q.x ==> track_at(g.cumulative_x(), p.x as int) <= track_at(
            g.cumulative_x(),
            q.x as int,
        ),
        p.y <= q.y ==> track_at(g.cumulative_y(), p.y as int) <= track_at(
            g.cumulative_y(),
            q.y as int,
        ),
{
    if p.x <= q.x {
        lemma_lower_bound_mono(g.cumulative_x(), p.x as int, q.x as int);
        lemma_lower_bound_bound(g.cumulative_x(), p.x as int);
        lemma_lower_bound_bound(g.cumulative_x(), q.x as int);
    }
    if p.y <= q.y {
        lemma_lower_bound_mono(g.cumulative_y(), p.y as int, q.y as int);
        lemma_lower_bound_bound(g.cumulative_y(), p.y as int);
        lemma_lower_bound_bound(g.cumulative_y(), q.y as int);
    }
}

proof fn lemma_divider_sound(cum: Seq<u32>, spacing: u32, v: int)
    ensures
        divider_at(cum, spacing, v) is Some ==> divider_at(cum, spacing, v)->0 < cum.len()
            && near_divider(cum[divider_at(cum, spacing, v)->0 as int], spacing, v),
{
    lemma_lower_bound_bound(cum, v);
}

proof fn lemma_divider_complete(cum: Seq<u32>, v: int, j: int)
    requires
        sorted(cum),
        0 <= j < cum.len(),
        near_divider(cum[j], 0, v),
    ensures
        divider_at(cum, 0, v) is Some,
{
    lemma_lower_bound_bound(cum, v);
    let idx = lower_bound(cum, v) as int;
    if idx >= cum.len() {
        assert(cum[j] <= cum[cum.len() - 1]);
    } else if idx == 0 {
        assert(cum[0] <= cum[j]);
    } else if j >= idx {
        assert(cum[idx] <= cum[j]);
    } else {
        assert(cum[j] <= cum[idx - 1]);
    }
}

/// The divider that [`Region::find_nearest_divider`] finds at `pos`.
pub open spec fn hit_at(g: Region, pos: Point) -> Option<DividerHit> {
    divider_hit(g.cumulative_x(), g.cumulative_y(), g.raw_columns(), g.raw_rows(), g.spacing(), pos)
}

/// Whether some divider of the sorted ends `cum` is near `v`.
pub open spec fn any_near(cum: Seq<u32>, spacing: u32, v: int) -> bool {
    exists|i: int| 0 <= i < cum.len() && near_divider(#[trigger] cum[i], spacing, v)
}

/// What divider hit-testing finds: a hit lies within the resize area of its
/// divider; with no divider of either axis that near there is no hit; a
/// column divider wins over a row divider; and where the spacing of an
/// axis is 0, a divider of it within the area is always found.
pub proof fn lemma_divider_hit(g: Region, pos: Point)
    requires
        g.wf(),
    ensures
        hit_at(g, pos) is Some && hit_at(g, pos)->0.axis == Axis::Column ==> hit_at(g, pos)->0.index
            < g.cumulative_x().len() && near_divider(
            g.cumulative_x()[hit_at(g, pos)->0.index as int],
            g.spacing().width,
            pos.x as int,
        ),
        hit_at(g, pos) is Some && hit_at(g, pos)->0.axis == Axis::Row ==> hit_at(g, pos)->0.index
            < g.cumulative_y().len() && near_divider(
            g.cumulative_y()[hit_at(g, pos)->0.index as int],
            g.spacing().height,
            pos.y as int,
        ),
        !any_near(g.cumulative_x(), g.spacing().width, pos.x as int) && !any_near(
            g.cumulative_y(),
            g.spacing().height,
            pos.y as int,
        ) ==> hit_at(g, pos) is None,
        divider_at(g.cumulative_x(), g.spacing().width, pos.x as int) is Some ==> (hit_at(g, pos) is Some
            && hit_at(g, pos)->0.axis == Axis::Column),
        g.spacing().width == 0 && any_near(g.cumulative_x(), 0, pos.x as int) ==> (hit_at(g, pos) is Some
            && hit_at(g, pos)->0.axis == Axis::Column),
        g.spacing().height == 0 && divider_at(g.cumulative_x(), g.spacing().width, pos.x as int) is None
            && any_near(g.cumulative_y(), 0, pos.y as int) ==> (hit_at(g, pos) is Some && hit_at(
            g,
            pos,
        )->0.axis == Axis::Row),
{
    lemma_boundaries_sorted(g.raw_columns(), g.bounds().width);
    lemma_boundaries_sorted(g.raw_rows(), g.bounds().height);
    lemma_lower_bound_bound(g.cumulative_x(), pos.x as int);
    lemma_lower_bound_bound(g.cumulative_y(), pos.y as int);
    lemma_divider_sound(g.cumulative_x(), g.spacing().width, pos.x as int);
    lemma_divider_sound(g.cumulative_y(), g.spacing().height, pos.y as int);
    if g.spacing().width == 0 && (exists|i: int|
        0 <= i < g.cumulative_x().len() && near_divider(
            #[trigger] g.cumulative_x()[i],
            0,
            pos.x as int,
        )) {
        let i = choose|i: int|
            0 <= i < g.cumulative_x().len() && near_divider(
                #[trigger] g.cumulative_x()[i],
                0,
                pos.x as int,
            );
        lemma_divider_complete(g.cumulative_x(), pos.x as int, i);
    }
    if g.spacing().height == 0 && (exists|i: int|
        0 <= i < g.cumulative_y().len() && near_divider(
            #[trigger] g.cumulative_y()[i],
            0,
            pos.y as int,
        )) {
        let i = choose|i: int|
            0 <= i < g.cumulative_y().len() && near_divider(
                #[trigger] g.cumulative_y()[i],
                0,
                pos.y as int,
            );
        lemma_divider_complete(g.cumulative_y(), pos.y as int, i);
    }
}

} // verus!
