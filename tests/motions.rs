use tabular::{expand_selection, move_selection, Address, Direction, Motion, Range};

fn cell(x: usize, y: usize) -> Range {
    Range { start: Address { x, y }, end: None }
}

fn block(sx: usize, sy: usize, ex: usize, ey: usize) -> Range {
    Range { start: Address { x: sx, y: sy }, end: Some(Address { x: ex, y: ey }) }
}

#[test]
fn forward_on_single_cell_moves_right() {
    assert_eq!(move_selection(&cell(0, 0), Motion::Forward, 3, 3), cell(1, 0));
}

#[test]
fn repeated_forward_stays_in_table() {
    let mut sel = cell(2, 2);
    for _ in 0..10 {
        sel = move_selection(&sel, Motion::Forward, 3, 3);
        assert!(sel.start.x <= 2 && sel.start.y <= 2);
        assert_eq!(sel.end, None);
    }
}

#[test]
fn forward_wraps_inside_selected_block() {
    assert_eq!(move_selection(&block(1, 1, 0, 0), Motion::Forward, 3, 3), cell(0, 0));
}

#[test]
fn forward_steps_along_the_block_row() {
    assert_eq!(move_selection(&block(0, 0, 1, 1), Motion::Forward, 3, 3), cell(1, 0));
    assert_eq!(move_selection(&block(1, 0, 0, 1), Motion::Forward, 3, 3), cell(0, 1));
}

#[test]
fn back_wraps_inside_selected_block() {
    assert_eq!(move_selection(&block(0, 0, 1, 1), Motion::Back, 3, 3), cell(1, 1));
    assert_eq!(move_selection(&block(0, 1, 1, 0), Motion::Back, 3, 3), cell(1, 0));
    assert_eq!(move_selection(&block(1, 1, 0, 0), Motion::Back, 3, 3), cell(0, 1));
}

#[test]
fn back_on_single_cell_moves_left() {
    assert_eq!(move_selection(&cell(2, 1), Motion::Back, 3, 3), cell(1, 1));
    assert_eq!(move_selection(&cell(0, 1), Motion::Back, 3, 3), cell(0, 1));
}

#[test]
fn arrows_clamp_to_table() {
    assert_eq!(move_selection(&cell(0, 0), Motion::Up, 3, 3), cell(0, 0));
    assert_eq!(move_selection(&cell(0, 0), Motion::Left, 3, 3), cell(0, 0));
    assert_eq!(move_selection(&cell(2, 2), Motion::Down, 3, 3), cell(2, 2));
    assert_eq!(move_selection(&cell(2, 2), Motion::Right, 3, 3), cell(2, 2));
    assert_eq!(move_selection(&cell(1, 1), Motion::Down, 3, 3), cell(1, 2));
    assert_eq!(move_selection(&cell(1, 1), Motion::Up, 3, 3), cell(1, 0));
}

#[test]
fn motions_from_outside_the_table_clamp() {
    assert_eq!(move_selection(&cell(5, 5), Motion::Up, 3, 3), cell(2, 2));
    assert_eq!(move_selection(&cell(5, 5), Motion::Left, 3, 3), cell(2, 2));
    assert_eq!(move_selection(&cell(5, 5), Motion::Down, 3, 3), cell(2, 2));
    assert_eq!(move_selection(&cell(5, 0), Motion::Right, 3, 3), cell(2, 0));
}

#[test]
fn home_end_and_document_motions() {
    assert_eq!(move_selection(&block(2, 1, 1, 2), Motion::Home, 5, 5), cell(0, 1));
    assert_eq!(move_selection(&block(1, 1, 3, 2), Motion::End, 5, 5), cell(4, 1));
    assert_eq!(move_selection(&cell(2, 1), Motion::Home, 5, 5), cell(0, 1));
    assert_eq!(move_selection(&cell(2, 7), Motion::End, 5, 5), cell(4, 4));
    assert_eq!(move_selection(&cell(3, 3), Motion::DocumentStart, 5, 4), cell(0, 0));
    assert_eq!(move_selection(&cell(0, 0), Motion::DocumentEnd, 5, 4), cell(3, 4));
}

#[test]
fn empty_table_moves_to_origin() {
    assert_eq!(move_selection(&cell(0, 0), Motion::DocumentEnd, 0, 0), cell(0, 0));
    assert_eq!(move_selection(&cell(0, 0), Motion::Right, 0, 0), cell(0, 0));
}

#[test]
fn expand_right_extends_end() {
    let r = expand_selection(&cell(0, 0), Motion::Right, 5, 5);
    assert_eq!(r, block(0, 0, 1, 0));
    assert!(tabular::ReferenceRange::contains(&r, &Address { x: 0, y: 0 }));
    assert!(tabular::ReferenceRange::contains(&r, &Address { x: 1, y: 0 }));
    assert!(!tabular::ReferenceRange::contains(&r, &Address { x: 2, y: 0 }));
}

#[test]
fn expand_clamps_and_keeps_start() {
    assert_eq!(expand_selection(&block(1, 1, 4, 4), Motion::Right, 5, 5), block(1, 1, 4, 4));
    assert_eq!(expand_selection(&block(1, 1, 0, 0), Motion::Up, 5, 5), block(1, 1, 0, 0));
    assert_eq!(expand_selection(&block(1, 1, 2, 2), Motion::Down, 5, 5), block(1, 1, 2, 3));
    assert_eq!(expand_selection(&block(1, 1, 2, 2), Motion::Left, 5, 5), block(1, 1, 1, 2));
}

#[test]
fn expand_with_other_motions_changes_nothing() {
    let r = block(1, 1, 2, 2);
    for m in [Motion::Home, Motion::End, Motion::Forward, Motion::Back, Motion::DocumentStart, Motion::DocumentEnd] {
        assert_eq!(expand_selection(&r, m, 5, 5), r);
    }
}

#[test]
fn widen_and_direction() {
    assert_eq!(Motion::Home.widen(), Motion::DocumentStart);
    assert_eq!(Motion::End.widen(), Motion::DocumentEnd);
    assert_eq!(Motion::Left.widen(), Motion::Left);
    assert_eq!(Motion::Up.direction(), Direction::Left);
    assert_eq!(Motion::DocumentEnd.direction(), Direction::Right);
    assert_eq!(Motion::Forward.direction(), Direction::Arbitrary);
}
