//! What the table asks its host to do.
use vstd::prelude::*;

use crate::reference::{Address, Range};
use crate::update::Motion;
use crate::utils::Axis;

verus! {

/// A request to change the host's table data or selection, which the host
/// applies to its own store.
#[derive(Debug, Clone, Copy, PartialEq, Structural)]
pub enum Action {
    /// Apply a [`Motion`] to the active cell.
    MoveSelection(Motion),
    /// Apply a [`Motion`] while selecting cells.
    ExpandSelection(Motion),
    /// Select a range of cells.
    Select(Range),
    /// Select the entire table.
    SelectAll,
    /// Edit the table.
    Edit(Edit),
    /// Resize the divider after the track with the given index by the given
    /// amount of raw layout units.
    ResizeDivider(Axis, usize, i64),
}

impl Action {
    /// Whether the action edits the table's content.
    pub fn is_edit(&self) -> (r: bool)
        ensures
            r == (*self is Edit),
    {
        matches!(self, Action::Edit(_))
    }
}

/// An edit that can be performed on a table.
#[derive(Debug, Clone, Copy, PartialEq, Eq, Structural)]
pub enum Edit {
    /// Delete the selected cells.
    Delete,
}

impl From<Edit> for Action {
    fn from(edit: Edit) -> (r: Action) {
        Action::Edit(edit)
    }
}

impl vstd::std_specs::convert::FromSpecImpl<Edit> for Action {
    open spec fn obeys_from_spec() -> bool {
        true
    }

    open spec fn from_spec(edit: Edit) -> Action {
        Action::Edit(edit)
    }
}

/// A request that needs context the table does not own, such as the
/// clipboard or the focus of a text editor.
#[derive(Debug, Clone, Copy, PartialEq, Eq, Structural)]
pub enum Instruction {
    /// The host should paste the clipboard contents.
    Paste,
    /// The host should cut the selection.
    Cut,
    /// The host should copy the selection.
    Copy,
    /// The host should activate the given cell, such as by focusing it.
    Activate(Address),
}

} // verus!
