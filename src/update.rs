//! Key presses, the bindings they produce, and motions of the selection.
use vstd::prelude::*;

use crate::utils::Status;

verus! {

/// A command that a key press produces.
#[derive(Debug, Clone, PartialEq)]
pub enum Binding<Message> {
    /// Copy the selection.
    Copy,
    /// Cut the selection.
    Cut,
    /// Paste the clipboard contents.
    Paste,
    /// Move the active cell by the given [`Motion`].
    MoveSelection(Motion),
    /// Expand the selection by the given [`Motion`].
    ExpandSelection(Motion),
    /// Select the entire table.
    SelectAll,
    /// Activate the active cell.
    Enter,
    /// Delete the selection.
    Delete,
    /// Focus the table.
    Focus,
    /// Unfocus the table.
    Unfocus,
    /// The pointer was pressed outside the table.
    ClickedOutside,
    /// Produce the given message.
    Custom(Message),
    /// Start editing the active cell.
    StartEdit,
}

/// A key, as far as the table tells keys apart.
#[derive(Debug, Clone, Copy, PartialEq, Eq, Structural)]
pub enum Key {
    F2,
    Enter,
    Delete,
    Backspace,
    Escape,
    ArrowLeft,
    ArrowRight,
    ArrowUp,
    ArrowDown,
    Home,
    End,
    /// A key that produces one character.
    Character(char),
    /// Any other key.
    Other,
}

/// The state of the keyboard modifiers, by what each one means on the
/// platform at hand.
#[derive(Debug, Clone, Copy, PartialEq, Eq, Default, Structural)]
pub struct Modifiers {
    /// Shift is held.
    pub shift: bool,
    /// Alt (Option) is held.
    pub alt: bool,
    /// The platform's command modifier (Ctrl, or Cmd on macOS) is held.
    pub command: bool,
    /// The platform's word-jump modifier (Ctrl, or Option on macOS) is held.
    pub jump: bool,
    /// The macOS Cmd key, which moves to the start or end of a line, is held.
    pub macos_command: bool,
}

/// A key press.
#[derive(Debug, Clone, Copy, PartialEq, Eq, Structural)]
pub struct KeyPress {
    /// The key pressed.
    pub key: Key,
    /// The state of the keyboard modifiers.
    pub modifiers: Modifiers,
    /// The current [`Status`] of the table.
    pub status: Status,
}

/// A movement of the active cell, or of the end of the selection.
#[derive(Debug, Clone, Copy, PartialEq, Eq, Structural)]
pub enum Motion {
    /// Move left.
    Left,
    /// Move right.
    Right,
    /// Move up.
    Up,
    /// Move down.
    Down,
    /// Move to the start of the row.
    Home,
    /// Move to the end of the row.
    End,
    /// Move to the next cell of the table.
    Forward,
    /// Move to the previous cell of the table.
    Back,
    /// Move to the start of the table.
    DocumentStart,
    /// Move to the end of the table.
    DocumentEnd,
}

/// A direction of movement.
#[derive(Debug, Clone, Copy, PartialEq, Eq, Structural)]
pub enum Direction {
    /// Backwards.
    Left,
    /// Forwards.
    Right,
    /// Depends on context.
    Arbitrary,
}

pub open spec fn widened(m: Motion) -> Motion {
    match m {
        Motion::Home => Motion::DocumentStart,
        Motion::End => Motion::DocumentEnd,
        _ => m,
    }
}

pub open spec fn direction_of(m: Motion) -> Direction {
    match m {
        Motion::Left | Motion::Up | Motion::Home | Motion::DocumentStart => Direction::Left,
        Motion::Right | Motion::Down | Motion::End | Motion::DocumentEnd => Direction::Right,
        Motion::Forward | Motion::Back => Direction::Arbitrary,
    }
}

impl Motion {
    /// Widens the motion to the whole table, where it has a wider form:
    /// Home becomes DocumentStart and End becomes DocumentEnd.
    pub fn widen(self) -> (r: Motion)
        ensures
            r == widened(self),
    {
        match self {
            Motion::Home => Motion::DocumentStart,
            Motion::End => Motion::DocumentEnd,
            _ => self,
        }
    }

    /// The direction in which the motion goes.
    pub fn direction(&self) -> (r: Direction)
        ensures
            r == direction_of(*self),
    {
        match self {
            Motion::Left | Motion::Up | Motion::Home | Motion::DocumentStart => Direction::Left,
            Motion::Right | Motion::Down | Motion::End | Motion::DocumentEnd => Direction::Right,
            Motion::Forward | Motion::Back => Direction::Arbitrary,
        }
    }
}

/// The motion that a navigation key stands for.
pub open spec fn key_motion(k: Key) -> Option<Motion> {
    match k {
        Key::ArrowLeft => Some(Motion::Left),
        Key::ArrowRight => Some(Motion::Right),
        Key::ArrowUp => Some(Motion::Up),
        Key::ArrowDown => Some(Motion::Down),
        Key::Home => Some(Motion::Home),
        Key::End => Some(Motion::End),
        _ => None,
    }
}

fn motion(key: Key) -> (r: Option<Motion>)
    ensures
        r == key_motion(key),
{
    match key {
        Key::ArrowLeft => Some(Motion::Left),
        Key::ArrowRight => Some(Motion::Right),
        Key::ArrowUp => Some(Motion::Up),
        Key::ArrowDown => Some(Motion::Down),
        Key::Home => Some(Motion::Home),
        Key::End => Some(Motion::End),
        _ => None,
    }
}

/// The motion a navigation key gives under the modifiers held: the macOS
/// Cmd key turns Left and Right into Home and End, the jump modifier then
/// widens the motion.
pub open spec fn modified_motion(m: Motion, mods: Modifiers) -> Motion {
    let m1 = if mods.macos_command {
        match m {
            Motion::Left => Motion::Home,
            Motion::Right => Motion::End,
            _ => m,
        }
    } else {
        m
    };
    if mods.jump {
        widened(m1)
    } else {
        m1
    }
}

/// The default binding of a key press. F2 starts editing on a focused table
/// and focuses an unfocused one; every other key binds only while the table
/// is focused.
pub open spec fn default_binding<Message>(p: KeyPress) -> Option<Binding<Message>> {
    let mods = p.modifiers;
    if p.key == Key::F2 {
        match p.status {
            Status::Focused => Some(Binding::StartEdit),
            Status::Unfocused => Some(Binding::Focus),
            Status::Disabled => None,
        }
    } else if p.status != Status::Focused {
        None
    } else {
        match p.key {
            Key::Enter => Some(Binding::Enter),
            Key::Delete | Key::Backspace => Some(Binding::Delete),
            Key::Escape => Some(Binding::Focus),
            Key::Character(c) => {
                if c == 'c' && mods.command {
                    Some(Binding::Copy)
                } else if c == 'x' && mods.command {
                    Some(Binding::Cut)
                } else if c == 'v' && mods.command && !mods.alt {
                    Some(Binding::Paste)
                } else if c == 'a' && mods.command {
                    Some(Binding::SelectAll)
                } else {
                    None
                }
            },
            _ => match key_motion(p.key) {
                Some(m) => {
                    let m2 = modified_motion(m, mods);
                    if mods.shift {
                        Some(Binding::ExpandSelection(m2))
                    } else {
                        Some(Binding::MoveSelection(m2))
                    }
                },
                None => None,
            },
        }
    }
}

impl<Message> Binding<Message> {
    /// The default binding for a key press.
    pub fn from_key_press(event: KeyPress) -> (r: Option<Binding<Message>>)
        ensures
            r == default_binding::<Message>(event),
    {
        let modifiers = event.modifiers;
        if event.key == Key::F2 {
            return match event.status {
                Status::Focused => Some(Binding::StartEdit),
                Status::Unfocused => Some(Binding::Focus),
                Status::Disabled => None,
            };
        }
        if event.status != Status::Focused {
            return None;
        }
        match event.key {
            Key::Enter => Some(Binding::Enter),
            Key::Delete | Key::Backspace => Some(Binding::Delete),
            Key::Escape => Some(Binding::Focus),
            Key::Character(c) => {
                if c == 'c' && modifiers.command {
                    Some(Binding::Copy)
                } else if c == 'x' && modifiers.command {
                    Some(Binding::Cut)
                } else if c == 'v' && modifiers.command && !modifiers.alt {
                    Some(Binding::Paste)
                } else if c == 'a' && modifiers.command {
                    Some(Binding::SelectAll)
                } else {
                    None
                }
            },
            _ => {
                let m = match motion(event.key) {
                    Some(m) => m,
                    None => {
                        return None;
                    },
                };
                let m = if modifiers.macos_command {
                    match m {
                        Motion::Left => Motion::Home,
                        Motion::Right => Motion::End,
                        _ => m,
                    }
                } else {
                    m
                };
                let m = if modifiers.jump {
                    m.widen()
                } else {
                    m
                };
                if modifiers.shift {
                    Some(Binding::ExpandSelection(m))
                } else {
                    Some(Binding::MoveSelection(m))
                }
            },
        }
    }
}

} // verus!
