use tabular::{Action, Address, Axis, Content, Edit, Motion, Range, Tabular};

fn addr(x: usize, y: usize) -> Address {
    Address { x, y }
}

fn block(sx: usize, sy: usize, ex: usize, ey: usize) -> Range {
    Range { start: addr(sx, sy), end: Some(addr(ex, ey)) }
}

fn filled(cols: usize, rows: usize) -> Content {
    let mut c = Content::with_range(block(0, 0, cols - 1, rows - 1));
    for x in 0..cols {
        for y in 0..rows {
            c.insert(addr(x, y), format!("{}{}", x, y));
        }
    }
    c
}

fn text(c: &Content, x: usize, y: usize) -> Option<String> {
    c.get(addr(x, y)).cloned()
}

#[test]
fn with_range_makes_empty_grid_with_default_sizes() {
    let c = Content::with_range(block(2, 3, 0, 1));
    assert_eq!(c.column_count(), 3);
    assert_eq!(c.row_count(), 3);
    assert_eq!(c.column_sizes(), &vec![100, 100, 100]);
    assert_eq!(c.row_sizes(), &vec![20, 20, 20]);
    assert_eq!(text(&c, 2, 2), Some(String::new()));
    assert_eq!(text(&c, 3, 0), None);
    assert_eq!(c.range(), block(2, 3, 0, 1));
    assert_eq!(c.selection(), Range { start: addr(0, 0), end: None });
    assert!(c.internal().is_dirty());
}

#[test]
fn from_range_is_empty() {
    let c = Content::from_range(&block(0, 0, 4, 4));
    assert_eq!(c.column_count(), 0);
    assert_eq!(c.row_count(), 0);
    assert!(c.column_sizes().is_empty());
}

#[test]
fn insert_into_ragged_content_evens_the_columns() {
    let items = vec![vec!["a".to_string()], vec!["b".to_string(), "c".to_string(), "d".to_string()]];
    let mut c = Content::from_parts(items, Range::default(), vec![1, 1], vec![1], Range::default());
    c.insert(addr(0, 1), "x".to_string());
    assert_eq!(c.row_count(), 3);
    assert_eq!(
        c.items(),
        &vec![
            vec!["a".to_string(), "x".to_string(), String::new()],
            vec!["b".to_string(), "c".to_string(), "d".to_string()],
        ]
    );
}

#[test]
fn insert_grows_the_grid() {
    let mut c = Content::from_range(&Range::default());
    c.insert(addr(2, 1), "x".to_string());
    assert_eq!(c.column_count(), 3);
    assert_eq!(c.row_count(), 2);
    assert_eq!(text(&c, 2, 1), Some("x".to_string()));
    assert_eq!(text(&c, 0, 0), Some(String::new()));
    assert_eq!(c.column_sizes(), &vec![100, 100, 100]);
    assert_eq!(c.row_sizes(), &vec![20, 20]);
    c.insert(addr(0, 3), "y".to_string());
    assert_eq!(c.column_count(), 3);
    assert_eq!(c.row_count(), 4);
    assert_eq!(text(&c, 2, 1), Some("x".to_string()));
    assert_eq!(text(&c, 2, 3), Some(String::new()));
    assert_eq!(c.row_sizes(), &vec![20, 20, 20, 20]);
}

#[test]
fn perform_select_and_motions() {
    let mut s = filled(3, 3);
    s.perform(Action::Select(block(1, 1, 0, 0)));
    assert_eq!(s.selection(), block(1, 1, 0, 0));
    s.perform(Action::MoveSelection(Motion::Forward));
    assert_eq!(s.selection(), Range { start: addr(0, 0), end: None });
    s.perform(Action::ExpandSelection(Motion::Down));
    assert_eq!(s.selection(), block(0, 0, 0, 1));
    s.move_selection(Motion::DocumentEnd);
    assert_eq!(s.selection(), Range { start: addr(2, 2), end: None });
    s.expand_selection(Motion::Left);
    assert_eq!(s.selection(), block(2, 2, 1, 2));
    s.select_cell(addr(1, 0));
    assert_eq!(s.selection(), Range { start: addr(1, 0), end: None });
}

#[test]
fn perform_delete_clears_selected_cells() {
    let mut s = filled(3, 3);
    s.perform(Action::Select(block(2, 1, 1, 0)));
    s.perform(Action::from(Edit::Delete));
    for x in 0..3 {
        for y in 0..3 {
            let expected = if x >= 1 && y <= 1 { String::new() } else { format!("{}{}", x, y) };
            assert_eq!(text(&s, x, y), Some(expected));
        }
    }
}

#[test]
fn perform_resize_adds_delta_floored_at_zero() {
    let mut s = filled(2, 2);
    s.perform(Action::ResizeDivider(Axis::Column, 1, 15));
    assert_eq!(s.column_sizes(), &vec![100, 115]);
    s.perform(Action::ResizeDivider(Axis::Column, 1, -50));
    assert_eq!(s.column_sizes(), &vec![100, 65]);
    s.perform(Action::ResizeDivider(Axis::Column, 0, -1000));
    assert_eq!(s.column_sizes(), &vec![0, 65]);
    s.perform(Action::ResizeDivider(Axis::Row, 0, 5));
    assert_eq!(s.row_sizes(), &vec![25, 20]);
    s.perform(Action::ResizeDivider(Axis::Row, 9, 5));
    assert_eq!(s.row_sizes(), &vec![25, 20]);
    s.perform(Action::ResizeDivider(Axis::Row, 1, i64::MAX));
    assert_eq!(s.row_sizes(), &vec![25, u32::MAX]);
}

#[test]
fn perform_select_all() {
    let mut s = filled(2, 3);
    s.perform(Action::SelectAll);
    assert_eq!(s.selection(), block(0, 0, 1, 2));
}

#[test]
fn set_sizes_and_dirty_flag() {
    let mut s = filled(2, 2);
    s.set_column_width(0, 7);
    s.set_column_width(5, 7);
    s.set_row_height(1, 9);
    assert_eq!(s.column_sizes(), &vec![7, 100]);
    assert_eq!(s.row_sizes(), &vec![20, 9]);
    assert!(s.take_dirty());
    assert!(!s.internal().is_dirty());
    s.set_dirty();
    assert!(s.internal().is_dirty());
}

#[test]
fn parts_round_trip() {
    let c = filled(2, 2).with_column_widths(vec![5, 6]).with_row_heights(vec![7, 8]);
    let items = c.items().clone();
    assert_eq!(items, vec![vec!["00".to_string(), "01".to_string()], vec!["10".to_string(), "11".to_string()]]);
    let d = Content::from_parts(items.clone(), block(0, 0, 1, 1), vec![5, 6], vec![7, 8], c.range());
    assert_eq!(d.items(), &items);
    assert_eq!(d.selection(), block(0, 0, 1, 1));
    assert_eq!(d.column_sizes(), &vec![5, 6]);
    assert_eq!(d.row_sizes(), &vec![7, 8]);
    assert!(d.internal().is_dirty());
}

#[test]
fn default_content_is_empty() {
    let c = Content::default();
    assert_eq!(c.column_count(), 0);
    assert_eq!(c.row_count(), 0);
}

#[test]
fn address_as_range() {
    assert_eq!(addr(3, 4).as_range(), Range { start: addr(3, 4), end: None });
}

#[test]
fn iter_lists_cells_column_by_column() {
    let c = filled(2, 2);
    let cells: Vec<(Address, String)> = c.iter();
    assert_eq!(
        cells,
        vec![
            (addr(0, 0), "00".to_string()),
            (addr(0, 1), "01".to_string()),
            (addr(1, 0), "10".to_string()),
            (addr(1, 1), "11".to_string()),
        ]
    );
}

#[test]
fn iter_relative_offsets_by_range_start() {
    let mut c = Content::with_range(block(3, 5, 4, 5));
    c.insert(addr(1, 0), "b".to_string());
    let cells = c.iter_relative();
    assert_eq!(cells, vec![(addr(3, 5), String::new()), (addr(4, 5), "b".to_string())]);
}
