use tabular::{Binding, Key, KeyPress, Modifiers, Motion, Status};

fn press(key: Key, modifiers: Modifiers) -> Option<Binding<()>> {
    Binding::from_key_press(KeyPress { key, modifiers, status: Status::Focused })
}

fn none() -> Modifiers {
    Modifiers::default()
}

fn command() -> Modifiers {
    Modifiers { command: true, ..Modifiers::default() }
}

#[test]
fn nothing_unless_focused() {
    for status in [Status::Unfocused, Status::Disabled] {
        let p = KeyPress { key: Key::ArrowLeft, modifiers: none(), status };
        assert_eq!(Binding::<()>::from_key_press(p), None);
    }
}

#[test]
fn f2_depends_on_status() {
    let p = |status| KeyPress { key: Key::F2, modifiers: none(), status };
    assert_eq!(Binding::<()>::from_key_press(p(Status::Focused)), Some(Binding::StartEdit));
    assert_eq!(Binding::<()>::from_key_press(p(Status::Unfocused)), Some(Binding::Focus));
    assert_eq!(Binding::<()>::from_key_press(p(Status::Disabled)), None);
}

#[test]
fn named_keys() {
    assert_eq!(press(Key::F2, none()), Some(Binding::StartEdit));
    assert_eq!(press(Key::Enter, none()), Some(Binding::Enter));
    assert_eq!(press(Key::Delete, none()), Some(Binding::Delete));
    assert_eq!(press(Key::Backspace, none()), Some(Binding::Delete));
    assert_eq!(press(Key::Escape, none()), Some(Binding::Focus));
    assert_eq!(press(Key::Other, none()), None);
}

#[test]
fn clipboard_keys() {
    assert_eq!(press(Key::Character('c'), command()), Some(Binding::Copy));
    assert_eq!(press(Key::Character('x'), command()), Some(Binding::Cut));
    assert_eq!(press(Key::Character('v'), command()), Some(Binding::Paste));
    assert_eq!(press(Key::Character('a'), command()), Some(Binding::SelectAll));
    let alt = Modifiers { command: true, alt: true, ..Modifiers::default() };
    assert_eq!(press(Key::Character('v'), alt), None);
    assert_eq!(press(Key::Character('c'), none()), None);
    assert_eq!(press(Key::Character('q'), command()), None);
}

#[test]
fn arrows_move_or_expand() {
    assert_eq!(press(Key::ArrowLeft, none()), Some(Binding::MoveSelection(Motion::Left)));
    assert_eq!(press(Key::ArrowDown, none()), Some(Binding::MoveSelection(Motion::Down)));
    let shift = Modifiers { shift: true, ..Modifiers::default() };
    assert_eq!(press(Key::ArrowUp, shift), Some(Binding::ExpandSelection(Motion::Up)));
}

#[test]
fn jump_and_line_modifiers() {
    let jump = Modifiers { jump: true, ..Modifiers::default() };
    assert_eq!(press(Key::Home, jump), Some(Binding::MoveSelection(Motion::DocumentStart)));
    assert_eq!(press(Key::End, jump), Some(Binding::MoveSelection(Motion::DocumentEnd)));
    assert_eq!(press(Key::ArrowLeft, jump), Some(Binding::MoveSelection(Motion::Left)));
    let line = Modifiers { macos_command: true, ..Modifiers::default() };
    assert_eq!(press(Key::ArrowLeft, line), Some(Binding::MoveSelection(Motion::Home)));
    assert_eq!(press(Key::ArrowRight, line), Some(Binding::MoveSelection(Motion::End)));
    let both = Modifiers { macos_command: true, jump: true, shift: true, ..Modifiers::default() };
    assert_eq!(press(Key::ArrowRight, both), Some(Binding::ExpandSelection(Motion::DocumentEnd)));
}
