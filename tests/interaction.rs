use tabular::{
    Action, Address, Axis, Binding, ClickKind, Config, Data, Edit, Emit, Event, Instruction,
    Interaction, Internal, Key, Modifiers, Motion, Outcome, Point, Range, Size, State,
};

fn run(s: &mut State, c: &Config, d: &Data, e: Event<u8>) -> Outcome<u8> {
    s.update(c, d, e)
}

fn zero() -> Size {
    Size { width: 0, height: 0 }
}

fn state() -> State {
    let mut s = State::new(&vec![20, 10], &vec![10, 10, 10], zero());
    s.layout(Size { width: 90, height: 30 }, zero());
    s
}

fn config() -> Config {
    Config { enabled: true, instructions: true, passthrough: false, spacing: zero() }
}

fn data() -> Data {
    Data {
        selection: Range { start: Address { x: 0, y: 0 }, end: None },
        column_sizes: vec![20, 10],
        row_sizes: vec![10, 10, 10],
        dirty: false,
    }
}

fn pt(x: i64, y: i64) -> Point {
    Point { x, y }
}

fn click(x: i64, y: i64, kind: ClickKind) -> Event<u8> {
    Event::LeftPressed { position: pt(x, y), inside: true, kind }
}

fn select(x: usize, y: usize) -> Emit<u8> {
    Emit::Action(Action::Select(Range { start: Address { x, y }, end: None }))
}

#[test]
fn disabled_table_emits_nothing() {
    let mut s = state();
    let c = Config { enabled: false, ..config() };
    let d = Data { dirty: true, ..data() };
    let events = vec![
        click(70, 25, ClickKind::Single),
        click(70, 25, ClickKind::Double),
        click(59, 25, ClickKind::Single),
        Event::CursorMoved { position: Some(pt(80, 5)), inside: true },
        Event::LeftReleased { position: Some(pt(80, 5)), inside: true },
        Event::KeyBound(Some(Binding::Custom(1))),
        Event::KeyBound(Some(Binding::Focus)),
        Event::KeyPressed { key: Key::ArrowRight, modifiers: Modifiers::default() },
        Event::RedrawRequested,
        Event::OtherPressed { inside: false },
        Event::Other,
    ];
    for e in events {
        let out = run(&mut s, &c, &d, e);
        assert!(out.emitted.is_empty());
        assert!(!out.captured);
        assert!(out.to_children);
        assert!(!out.set_clean);
        assert!(!s.is_focused());
    }
}

#[test]
fn double_click_selects_then_activates() {
    let mut s = state();
    let out = run(&mut s, &config(), &data(), click(70, 25, ClickKind::Double));
    assert_eq!(
        out.emitted,
        vec![select(1, 2), Emit::Instruction(Instruction::Activate(Address { x: 1, y: 2 }))]
    );
    assert!(out.captured);
    assert!(!out.to_children);
}

#[test]
fn double_click_on_selected_cell_only_activates() {
    let mut s = state();
    let out = run(&mut s, &config(), &data(), click(10, 5, ClickKind::Triple));
    assert_eq!(out.emitted, vec![Emit::Instruction(Instruction::Activate(Address { x: 0, y: 0 }))]);
}

#[test]
fn double_click_without_instruction_handler_only_selects() {
    let mut s = state();
    let c = Config { instructions: false, ..config() };
    let out = run(&mut s, &c, &data(), click(70, 25, ClickKind::Double));
    assert_eq!(out.emitted, vec![select(1, 2)]);
}

#[test]
fn single_click_selects_and_focuses() {
    let mut s = state();
    let out = run(&mut s, &config(), &data(), click(70, 25, ClickKind::Single));
    assert_eq!(out.emitted, vec![select(1, 2)]);
    assert!(s.is_focused());
    assert!(!out.to_children);
    assert!(!out.captured);
    let c = Config { passthrough: true, ..config() };
    let mut s = state();
    let out = run(&mut s, &c, &data(), click(70, 25, ClickKind::Single));
    assert!(out.to_children);
}

#[test]
fn single_click_on_selected_cell_emits_nothing() {
    let mut s = state();
    let out = run(&mut s, &config(), &data(), click(10, 5, ClickKind::Single));
    assert!(out.emitted.is_empty());
    assert!(!s.is_focused());
}

#[test]
fn press_outside_unfocuses() {
    let mut s = state();
    s.focus();
    let out = run(&mut s, &config(), &data(), Event::LeftPressed { position: pt(200, 5), inside: false, kind: ClickKind::Single });
    assert!(out.emitted.is_empty());
    assert!(!out.to_children);
    assert!(out.captured);
    assert!(!s.is_focused());
    let out = run(&mut s, &config(), &data(), Event::OtherPressed { inside: false });
    assert!(!out.captured);
    assert!(!out.to_children);
}

#[test]
fn divider_drag_resizes_and_release_reports_delta() {
    let mut s = state();
    let out = run(&mut s, &config(), &data(), click(59, 25, ClickKind::Single));
    assert!(out.emitted.is_empty());
    assert!(!out.to_children);
    assert!(s.is_focused());
    assert!(matches!(s.interaction, Interaction::ResizeDivider(h) if h.axis == Axis::Column && h.index == 0 && h.original_size == 20));

    let out = run(&mut s, &config(), &data(), Event::CursorMoved { position: Some(pt(68, 25)), inside: true });
    assert!(out.emitted.is_empty());
    assert!(out.captured && out.invalidate_layout && out.invalidate_widgets);
    assert_eq!(s.region.total_raw_width(), 33);
    assert_eq!(s.region.cell_size(0, 0).width, 62);

    let out = run(&mut s, &config(), &data(), Event::LeftReleased { position: Some(pt(68, 25)), inside: true });
    assert_eq!(out.emitted, vec![Emit::Action(Action::ResizeDivider(Axis::Column, 0, 3))]);
    assert!(out.captured);
    assert!(matches!(s.interaction, Interaction::Idle));
}

#[test]
fn drag_selects_a_normalized_range() {
    let mut s = state();
    run(&mut s, &config(), &data(), click(70, 25, ClickKind::Single));
    let out = run(&mut s, &config(), &data(), Event::CursorMoved { position: Some(pt(10, 5)), inside: true });
    let expected = Range { start: Address { x: 0, y: 0 }, end: Some(Address { x: 1, y: 2 }) };
    assert_eq!(out.emitted, vec![Emit::Action(Action::Select(expected))]);
    assert!(out.captured && out.invalidate_layout);
    let d = Data { selection: expected, ..data() };
    let out = run(&mut s, &config(), &d, Event::CursorMoved { position: Some(pt(12, 6)), inside: true });
    assert!(out.emitted.is_empty());
    assert!(!out.invalidate_layout);
}

#[test]
fn moves_without_a_held_click_go_to_children() {
    let mut s = state();
    let out = run(&mut s, &config(), &data(), Event::CursorMoved { position: Some(pt(10, 5)), inside: true });
    assert!(out.emitted.is_empty());
    assert!(out.to_children);
    run(&mut s, &config(), &data(), click(70, 25, ClickKind::Single));
    run(&mut s, &config(), &data(), Event::LeftReleased { position: Some(pt(70, 25)), inside: true });
    let out = run(&mut s, &config(), &data(), Event::CursorMoved { position: Some(pt(10, 5)), inside: true });
    assert!(out.emitted.is_empty());
}

#[test]
fn keys_need_focus() {
    let mut s = state();
    let arrow = || Event::KeyPressed { key: Key::ArrowRight, modifiers: Modifiers::default() };
    let out = run(&mut s, &config(), &data(), arrow());
    assert!(out.emitted.is_empty());
    s.focus();
    let out = run(&mut s, &config(), &data(), arrow());
    assert_eq!(out.emitted, vec![Emit::Action(Action::MoveSelection(Motion::Right))]);
    let out = run(&mut s, &config(), &data(), Event::KeyPressed { key: Key::Delete, modifiers: Modifiers::default() });
    assert_eq!(out.emitted, vec![Emit::Action(Action::Edit(Edit::Delete))]);
}

#[test]
fn bindings_from_the_host() {
    let mut s = state();
    let out = run(&mut s, &config(), &data(), Event::KeyBound(Some(Binding::Custom(7))));
    assert_eq!(out.emitted, vec![Emit::Message(7)]);
    let out = run(&mut s, &config(), &data(), Event::KeyBound(Some(Binding::Copy)));
    assert!(out.emitted.is_empty());
    let out = run(&mut s, &config(), &data(), Event::KeyBound(Some(Binding::Focus)));
    assert!(out.emitted.is_empty() && out.invalidate_layout);
    assert!(s.is_focused());
    let out = run(&mut s, &config(), &data(), Event::KeyBound(Some(Binding::Copy)));
    assert_eq!(out.emitted, vec![Emit::Instruction(Instruction::Copy)]);
    let out = run(&mut s, &config(), &data(), Event::KeyBound(Some(Binding::Enter)));
    assert_eq!(out.emitted, vec![Emit::Instruction(Instruction::Activate(Address { x: 0, y: 0 }))]);
    assert!(out.invalidate_widgets);
    let out = run(&mut s, &config(), &data(), Event::KeyBound(Some(Binding::ClickedOutside)));
    assert!(!out.to_children);
    assert!(!s.is_focused());
    let out = run(&mut s, &config(), &data(), Event::KeyBound(Some(Binding::StartEdit)));
    assert_eq!(out.emitted, vec![Emit::Instruction(Instruction::Activate(Address { x: 0, y: 0 }))]);
}

#[test]
fn redraw_rebuilds_when_dirty() {
    let mut s = state();
    s.focus();
    let out = run(&mut s, &config(), &data(), Event::RedrawRequested);
    assert!(!out.set_clean && !out.invalidate_layout);
    assert!(s.is_focused());
    let d = Data { column_sizes: vec![5, 5, 5], dirty: true, ..data() };
    let out = run(&mut s, &config(), &d, Event::RedrawRequested);
    assert!(out.set_clean && out.invalidate_layout);
    assert!(!s.is_focused());
    assert_eq!(s.region.column_count(), 3);
    assert_eq!(s.region.total_raw_width(), 15);
}

#[test]
fn internal_dirty_flag() {
    let mut i = Internal::new();
    assert!(i.is_dirty());
    i.set_clean();
    assert!(!i.is_dirty());
    i.set_dirty();
    assert!(i.take_dirty());
    assert!(!i.is_dirty());
    assert!(Internal::default().is_dirty());
    assert!(i.clone().is_dirty());
}

#[test]
fn action_helpers() {
    assert!(Action::from(Edit::Delete).is_edit());
    assert!(!Action::SelectAll.is_edit());
}

#[test]
fn release_outside_still_reports_the_resize() {
    let mut s = state();
    run(&mut s, &config(), &data(), click(59, 25, ClickKind::Single));
    let out = run(&mut s, &config(), &data(), Event::LeftReleased { position: Some(pt(150, 25)), inside: false });
    assert_eq!(out.emitted, vec![Emit::Action(Action::ResizeDivider(Axis::Column, 0, 30))]);
    assert!(out.captured);
    assert!(matches!(s.interaction, Interaction::Idle));
}

#[test]
fn drag_without_movement_keeps_the_raw_size() {
    let spacing = Size { width: 4, height: 0 };
    let mut s = State::new(&vec![20, 10], &vec![10], spacing);
    s.layout(Size { width: 38, height: 10 }, spacing);
    let c = Config { spacing, ..config() };
    let d = Data { column_sizes: vec![20, 10], row_sizes: vec![10], ..data() };
    run(&mut s, &c, &d, click(22, 5, ClickKind::Single));
    assert!(matches!(s.interaction, Interaction::ResizeDivider(h) if h.original_size == 24));
    run(&mut s, &c, &d, Event::CursorMoved { position: Some(pt(22, 5)), inside: true });
    assert_eq!(s.region.total_raw_width(), 38);
    assert_eq!(s.region.cell_size(0, 0).width, 20);
}
