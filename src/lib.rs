//! The interactive core of a spreadsheet-style table: scaled geometry and
//! hit-testing, selection motions, key bindings, and the state machine that
//! turns pointer and keyboard events into requests for the host.
use vstd::prelude::*;

pub mod action;
pub mod content;
pub mod geometry;
pub mod list;
pub mod reference;
pub mod selection;
pub mod table;
pub mod update;
pub mod utils;

pub use action::{Action, Edit, Instruction};
pub use content::{Internal, Tabular};
pub use geometry::{Point, Rect, Region, Size};
pub use list::Content;
pub use reference::{Address, Range, Reference, ReferenceRange};
pub use selection::{expand_selection, move_selection};
pub use table::{ClickKind, Config, Data, Emit, Event, Interaction, Outcome, State};
pub use update::{Binding, Direction, Key, KeyPress, Modifiers, Motion};
pub use utils::{from_column_name, to_column_name, Axis, DividerHit, Status};

verus! {

} // verus!
