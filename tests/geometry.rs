use tabular::{Address, Axis, Point, Range, Rect, Region, Size};

fn region() -> Region {
    let mut g = Region::new(&vec![20, 10], &vec![10, 10, 10], Size { width: 0, height: 0 }).unwrap();
    g.scale_to_bounds(Size { width: 90, height: 30 }, Size { width: 0, height: 0 });
    g
}

fn pt(x: i64, y: i64) -> Point {
    Point { x, y }
}

#[test]
fn scaling_keeps_proportions_and_fills_bounds() {
    let g = region();
    assert_eq!(g.cell_size(0, 0), Size { width: 60, height: 10 });
    assert_eq!(g.cell_size(0, 1), Size { width: 30, height: 10 });
    assert_eq!(g.cell_position(0, 1), pt(60, 0));
    assert_eq!(g.cell_position(2, 0), pt(0, 20));
    assert_eq!(g.total_raw_width(), 30);
    assert_eq!(g.total_raw_height(), 30);
}

#[test]
fn scaled_sizes_sum_to_bounds() {
    let mut g = Region::new(&vec![7, 11, 13, 17], &vec![3], Size { width: 0, height: 0 }).unwrap();
    g.scale_to_bounds(Size { width: 101, height: 7 }, Size { width: 0, height: 0 });
    let sum: u32 = (0..4).map(|c| g.cell_size(0, c).width).sum();
    assert_eq!(sum, 101);
    assert_eq!(g.cell_size(0, 0).height, 7);
}

#[test]
fn double_raw_size_gives_double_scaled_size() {
    let mut g = Region::new(&vec![40, 20, 10], &vec![5], Size { width: 0, height: 0 }).unwrap();
    g.scale_to_bounds(Size { width: 333, height: 10 }, Size { width: 0, height: 0 });
    let a = g.cell_size(0, 0).width as i64;
    let b = g.cell_size(0, 1).width as i64;
    let c = g.cell_size(0, 2).width as i64;
    assert!((a - 2 * b).abs() < 3);
    assert!((b - 2 * c).abs() < 3);
    assert_eq!(a + b + c, 333);
}

#[test]
fn spacing_is_added_to_raw_sizes_and_removed_from_cells() {
    let mut g = Region::new(&vec![10, 10], &vec![10], Size { width: 4, height: 2 }).unwrap();
    g.scale_to_bounds(Size { width: 28, height: 12 }, Size { width: 4, height: 2 });
    assert_eq!(g.total_raw_width(), 28);
    assert_eq!(g.cell_size(0, 0), Size { width: 10, height: 10 });
    assert_eq!(g.cell_position(0, 1), pt(16, 1));
}

#[test]
fn empty_region_has_zero_geometry() {
    let mut g = Region::new(&vec![], &vec![], Size { width: 0, height: 0 }).unwrap();
    g.scale_to_bounds(Size { width: 100, height: 100 }, Size { width: 0, height: 0 });
    assert_eq!(g.column_count(), 0);
    assert_eq!(g.find_cell(pt(50, 50)), (0, 0));
    assert_eq!(g.find_nearest_divider(pt(0, 0)), None);
    assert_eq!(g.cell_size(0, 0), Size { width: 0, height: 0 });
}

#[test]
fn zero_raw_sizes_give_zero_geometry() {
    let mut g = Region::new(&vec![0, 0], &vec![0], Size { width: 0, height: 0 }).unwrap();
    g.scale_to_bounds(Size { width: 100, height: 100 }, Size { width: 0, height: 0 });
    assert_eq!(g.cell_size(0, 1), Size { width: 0, height: 0 });
}

#[test]
fn oversized_raw_sizes_are_refused() {
    assert!(Region::new(&vec![u32::MAX, 1], &vec![1], Size { width: 0, height: 0 }).is_none());
    assert!(Region::new(&vec![u32::MAX], &vec![1], Size { width: 1, height: 0 }).is_none());
    assert!(Region::new(&vec![u32::MAX], &vec![1], Size { width: 0, height: 0 }).is_some());
}

#[test]
fn find_cell_returns_column_then_row() {
    let g = region();
    assert_eq!(g.find_cell(pt(0, 0)), (0, 0));
    assert_eq!(g.find_cell(pt(60, 10)), (0, 0));
    assert_eq!(g.find_cell(pt(61, 15)), (1, 1));
    assert_eq!(g.find_cell(pt(200, 200)), (1, 2));
    assert_eq!(g.find_cell(pt(-5, -5)), (0, 0));
}

#[test]
fn find_cell_is_monotonic() {
    let g = region();
    for y in [-3i64, 0, 9, 15, 29, 40] {
        let mut last = 0;
        for x in -5..100i64 {
            let (c, r) = g.find_cell(pt(x, y));
            assert!(c >= last);
            last = c;
            assert_eq!(r, g.find_cell(pt(0, y)).1);
        }
    }
    for x in [0i64, 30, 70] {
        let mut last = 0;
        for y in -5..40i64 {
            let (_, r) = g.find_cell(pt(x, y));
            assert!(r >= last);
            last = r;
        }
    }
}

#[test]
fn divider_within_four_units() {
    let g = region();
    let hit = g.find_nearest_divider(pt(57, 5)).unwrap();
    assert_eq!(hit.axis, Axis::Column);
    assert_eq!(hit.index, 0);
    assert_eq!(hit.original_size, 20);
    assert_eq!(g.find_nearest_divider(pt(56, 5)).map(|h| h.index), Some(0));
    assert_eq!(g.find_nearest_divider(pt(64, 5)).map(|h| h.index), Some(0));
    assert_eq!(g.find_nearest_divider(pt(55, 5)), None);
    assert_eq!(g.find_nearest_divider(pt(65, 5)), None);
}

#[test]
fn row_divider_when_no_column_divider() {
    let g = region();
    let hit = g.find_nearest_divider(pt(30, 12)).unwrap();
    assert_eq!(hit.axis, Axis::Row);
    assert_eq!(hit.index, 0);
    assert_eq!(hit.original_size, 10);
}

#[test]
fn column_divider_wins_ties() {
    let g = region();
    let hit = g.find_nearest_divider(pt(60, 10)).unwrap();
    assert_eq!(hit.axis, Axis::Column);
}

#[test]
fn divider_accounts_for_spacing() {
    let mut g = Region::new(&vec![10, 10], &vec![10], Size { width: 4, height: 0 }).unwrap();
    g.scale_to_bounds(Size { width: 28, height: 10 }, Size { width: 4, height: 0 });
    let hit = g.find_nearest_divider(pt(12, 5)).unwrap();
    assert_eq!((hit.axis, hit.index, hit.original_size), (Axis::Column, 0, 14));
}

#[test]
fn selection_bounds_cover_the_range() {
    let g = region();
    let r = Range { start: Address { x: 1, y: 2 }, end: Some(Address { x: 0, y: 1 }) };
    assert_eq!(g.selection_bounds(&r), Rect { x: 0, y: 10, width: 90, height: 20 });
    let one = Range { start: Address { x: 1, y: 0 }, end: None };
    assert_eq!(g.selection_bounds(&one), Rect { x: 60, y: 0, width: 30, height: 10 });
}

#[test]
fn selection_bounds_past_table_are_empty() {
    let g = region();
    let r = Range { start: Address { x: 0, y: 0 }, end: Some(Address { x: 5, y: 0 }) };
    assert_eq!(g.selection_bounds(&r), Rect::default());
}

#[test]
fn raw_delta_converts_pixels_to_raw_units() {
    let g = region();
    assert_eq!(g.raw_delta(Axis::Column, 10, 19), 3);
    assert_eq!(g.raw_delta(Axis::Column, 19, 10), -3);
    assert_eq!(g.raw_delta(Axis::Row, 0, 7), 7);
}

#[test]
fn set_raw_size_rescales() {
    let mut g = region();
    g.set_raw_size(Axis::Column, 0, 50);
    assert_eq!(g.total_raw_width(), 60);
    assert_eq!(g.cell_size(0, 0).width, 75);
    assert_eq!(g.cell_size(0, 1).width, 15);
    g.set_raw_size(Axis::Column, 7, 1);
    assert_eq!(g.total_raw_width(), 60);
    g.set_raw_size(Axis::Row, 0, u32::MAX);
    assert_eq!(g.total_raw_height(), u32::MAX as u64);
}

#[test]
fn divider_of_a_column_narrower_than_its_spacing_is_looked_for_only_next_to_the_point() {
    let spacing = Size { width: 20, height: 0 };
    let mut g = Region::new(&vec![80, 0], &vec![10], spacing).unwrap();
    g.scale_to_bounds(Size { width: 60, height: 10 }, spacing);
    assert_eq!(g.column_ends(), &vec![50, 60]);
    // The second column's divider sits at 50, but only the first track end,
    // whose divider is at 40, is next to the point.
    assert_eq!(g.find_nearest_divider(pt(50, 5)), None);
    assert_eq!(g.find_nearest_divider(pt(51, 5)).map(|h| h.index), Some(1));
}
