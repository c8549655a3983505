//! The state machine that turns pointer and keyboard events into requests
//! for the host: clicks select cells, drags select ranges or resize
//! dividers, and key bindings move the selection.
use vstd::prelude::*;

use crate::action::{Action, Edit, Instruction};
use crate::geometry::{
    hit_at, raw_sizes, raw_total, track_at, with_raw_size, Point, Region, Size,
};
use crate::reference::{normalized, range_contains, Address, Range, ReferenceRange};
use crate::update::{default_binding, Binding, Key, KeyPress, Modifiers};
use crate::utils::{Axis, DividerHit, Status};

verus! {

/// How many clicks in a row a press makes, as the host's pointer runtime
/// counts them by time and distance.
#[derive(Debug, Clone, Copy, PartialEq, Eq, Structural)]
pub enum ClickKind {
    Single,
    Double,
    Triple,
}

/// What the table is doing with the pointer.
#[derive(Debug, Clone, Copy)]
pub enum Interaction {
    Idle,
    /// A divider is being dragged.
    ResizeDivider(DividerHit),
}

/// An event from the host, with positions relative to the table's
/// top-left corner and `inside` telling whether the pointer is within the
/// table's bounds.
#[derive(Debug, Clone)]
pub enum Event<Message> {
    /// The left button was pressed.
    LeftPressed { position: Point, inside: bool, kind: ClickKind },
    /// Another button was pressed.
    OtherPressed { inside: bool },
    /// The left button was released (`None` when the pointer's position is
    /// unknown).
    LeftReleased { position: Option<Point>, inside: bool },
    /// The pointer moved (`None` when its position is unknown).
    CursorMoved { position: Option<Point>, inside: bool },
    /// A key was pressed, to be mapped by the default key bindings.
    KeyPressed { key: Key, modifiers: Modifiers },
    /// A key was pressed and the host's own key map gave this binding.
    KeyBound(Option<Binding<Message>>),
    /// A frame is about to be drawn.
    RedrawRequested,
    /// Any other event.
    Other,
}

/// How the host set the table up.
#[derive(Debug, Clone, Copy)]
pub struct Config {
    /// The host handles actions; without that the table is disabled.
    pub enabled: bool,
    /// The host handles instructions.
    pub instructions: bool,
    /// Single clicks on cells also go to the cells' own widgets.
    pub passthrough: bool,
    /// The spacing between cells.
    pub spacing: Size,
}

/// What the table reads of the host's data.
#[derive(Debug, Clone)]
pub struct Data {
    pub selection: Range,
    pub column_sizes: Vec<u32>,
    pub row_sizes: Vec<u32>,
    /// The data changed since the table last caught up with it.
    pub dirty: bool,
}

/// A request for the host.
#[derive(Debug, Clone, PartialEq)]
pub enum Emit<Message> {
    Action(Action),
    Instruction(Instruction),
    Message(Message),
}

/// What handling an event asks of the host.
#[derive(Debug, Clone)]
pub struct Outcome<Message> {
    /// The requests, in order.
    pub emitted: Vec<Emit<Message>>,
    /// The event is consumed.
    pub captured: bool,
    /// The event goes on to the cells' own widgets.
    pub to_children: bool,
    /// The table's layout must be computed again.
    pub invalidate_layout: bool,
    /// The widgets must be built again.
    pub invalidate_widgets: bool,
    /// The host should mark its data clean.
    pub set_clean: bool,
}

/// The table's own state between events.
#[derive(Debug)]
pub struct State {
    /// Where the last single click was.
    pub last_click: Option<Point>,
    /// The kind of the click being held, if any.
    pub drag_click: Option<ClickKind>,
    /// Whether a divider is being dragged.
    pub interaction: Interaction,
    pub is_focused: bool,
    /// The geometry that hit-testing reads.
    pub region: Region,
}

/// The cell under `p`.
pub open spec fn cell_under(g: Region, p: Point) -> Address {
    Address {
        x: track_at(g.cumulative_x(), p.x as int) as usize,
        y: track_at(g.cumulative_y(), p.y as int) as usize,
    }
}

/// The single-cell range of `a`.
pub open spec fn single(a: Address) -> Range {
    Range { start: a, end: None }
}

pub open spec fn status_of(focused: bool) -> Status {
    if focused { Status::Focused } else { Status::Unfocused }
}

/// The binding that a key event gives in state `s`.
pub open spec fn binding_of<M>(s: State, e: Event<M>) -> Option<Binding<M>> {
    match e {
        Event::KeyPressed { key, modifiers } => default_binding::<M>(
            KeyPress { key, modifiers, status: status_of(s.is_focused) },
        ),
        Event::KeyBound(b) => b,
        _ => None,
    }
}

/// What applying a binding emits.
pub open spec fn binding_emits<M>(s: State, c: Config, d: Data, b: Binding<M>) -> Seq<Emit<M>> {
    let f = s.is_focused;
    match b {
        Binding::Cut => if f && c.instructions { seq![Emit::Instruction(Instruction::Cut)] } else { seq![] },
        Binding::Copy => if f && c.instructions { seq![Emit::Instruction(Instruction::Copy)] } else { seq![] },
        Binding::Paste => if f && c.instructions { seq![Emit::Instruction(Instruction::Paste)] } else { seq![] },
        Binding::Custom(m) => seq![Emit::Message(m)],
        Binding::Delete => if f { seq![Emit::Action(Action::Edit(Edit::Delete))] } else { seq![] },
        Binding::StartEdit => if c.instructions {
            seq![Emit::Instruction(Instruction::Activate(d.selection.start))]
        } else {
            seq![]
        },
        Binding::Enter => if f && c.instructions {
            seq![Emit::Instruction(Instruction::Activate(d.selection.start))]
        } else {
            seq![]
        },
        Binding::MoveSelection(m) => if f { seq![Emit::Action(Action::MoveSelection(m))] } else { seq![] },
        Binding::ExpandSelection(m) => if f { seq![Emit::Action(Action::ExpandSelection(m))] } else { seq![] },
        Binding::SelectAll => if f { seq![Emit::Action(Action::SelectAll)] } else { seq![] },
        _ => seq![],
    }
}

/// What a press of the left button inside the table emits.
pub open spec fn press_emits<M>(s: State, c: Config, d: Data, p: Point, kind: ClickKind) -> Seq<Emit<M>> {
    let cell = cell_under(s.region, p);
    let select: Seq<Emit<M>> = if range_contains(d.selection, cell) {
        seq![]
    } else {
        seq![Emit::Action(Action::Select(single(cell)))]
    };
    match kind {
        ClickKind::Single => if hit_at(s.region, p) is Some { seq![] } else { select },
        _ => select + if c.instructions {
            seq![Emit::Instruction(Instruction::Activate(cell))]
        } else {
            seq![]
        },
    }
}

/// The range that dragging from `start` to `p` selects.
pub open spec fn drag_range(s: State, start: Point, p: Point) -> Range {
    normalized(
        Range { start: cell_under(s.region, start), end: Some(cell_under(s.region, p)) },
    )
}

/// Whether a pointer movement counts as a drag: the left button was
/// pressed once and is held, and the positions are known.
pub open spec fn is_drag<M>(s: State, e: Event<M>) -> bool {
    e matches Event::CursorMoved { position, inside } && s.drag_click == Some(ClickKind::Single)
        && position is Some && s.last_click is Some
}

/// The raw delta of a divider drag from `start` to `p`.
pub open spec fn resize_delta(g: Region, h: DividerHit, start: Point, p: Point) -> int {
    match h.axis {
        Axis::Column => crate::geometry::raw_delta(
            p.x - start.x,
            crate::geometry::total(g.raw_columns()),
            g.bounds().width,
        ),
        Axis::Row => crate::geometry::raw_delta(
            p.y - start.y,
            crate::geometry::total(g.raw_rows()),
            g.bounds().height,
        ),
    }
}

/// What an event emits, in order.
pub open spec fn emits<M>(s: State, c: Config, d: Data, e: Event<M>) -> Seq<Emit<M>> {
    if !c.enabled {
        seq![]
    } else {
        match e {
            Event::LeftPressed { position, inside, kind } => if inside {
                press_emits(s, c, d, position, kind)
            } else {
                seq![]
            },
            Event::LeftReleased { position, inside } => match s.interaction {
                Interaction::ResizeDivider(h) => if position is Some && s.last_click is Some {
                    seq![
                        Emit::Action(
                            Action::ResizeDivider(
                                h.axis,
                                h.index,
                                resize_delta(s.region, h, s.last_click->0, position->0) as i64,
                            ),
                        ),
                    ]
                } else {
                    seq![]
                },
                Interaction::Idle => seq![],
            },
            Event::CursorMoved { position, inside } => if is_drag(s, e) && s.interaction is Idle
                && inside && position->0 != s.last_click->0 && drag_range(
                s,
                s.last_click->0,
                position->0,
            ) != d.selection {
                seq![Emit::Action(Action::Select(drag_range(s, s.last_click->0, position->0)))]
            } else {
                seq![]
            },
            Event::KeyPressed { .. } | Event::KeyBound(_) => match binding_of(s, e) {
                Some(b) => binding_emits(s, c, d, b),
                None => seq![],
            },
            _ => seq![],
        }
    }
}

/// Whether the event is a press of any button outside the table.
pub open spec fn pressed_outside<M>(e: Event<M>) -> bool {
    (e matches Event::LeftPressed { inside, .. } && !inside) || (e matches Event::OtherPressed {
        inside,
    } && !inside)
}

/// Whether the event is a single click inside the table.
pub open spec fn single_inside<M>(e: Event<M>) -> bool {
    e matches Event::LeftPressed { inside, kind, .. } && inside && kind == ClickKind::Single
}

/// Whether the event is a double or triple click inside the table.
pub open spec fn multi_inside<M>(e: Event<M>) -> bool {
    e matches Event::LeftPressed { inside, kind, .. } && inside && kind != ClickKind::Single
}

pub open spec fn press_position<M>(e: Event<M>) -> Point {
    match e {
        Event::LeftPressed { position, .. } => position,
        Event::LeftReleased { position, .. } => match position {
            Some(p) => p,
            None => Point { x: 0, y: 0 },
        },
        Event::CursorMoved { position, .. } => match position {
            Some(p) => p,
            None => Point { x: 0, y: 0 },
        },
        _ => Point { x: 0, y: 0 },
    }
}

pub open spec fn event_inside<M>(e: Event<M>) -> bool {
    match e {
        Event::LeftPressed { inside, .. } => inside,
        Event::OtherPressed { inside } => inside,
        Event::LeftReleased { inside, .. } => inside,
        Event::CursorMoved { inside, .. } => inside,
        _ => false,
    }
}

/// Whether the event is a single click inside the table on a divider.
pub open spec fn divider_press<M>(s: State, e: Event<M>) -> bool {
    single_inside(e) && hit_at(s.region, press_position(e)) is Some
}

/// Whether the event ends a divider drag.
pub open spec fn resize_release<M>(s: State, e: Event<M>) -> bool {
    e is LeftReleased && s.interaction is ResizeDivider
}

/// Whether the event drags a divider.
pub open spec fn resize_drag<M>(s: State, e: Event<M>) -> bool {
    is_drag(s, e) && s.interaction is ResizeDivider
}

/// Whether the event drags out a selection inside the table.
pub open spec fn select_drag<M>(s: State, e: Event<M>) -> bool {
    is_drag(s, e) && s.interaction is Idle && event_inside(e)
}

/// Whether the event's binding is one of the given kind.
pub open spec fn bound_to<M>(s: State, e: Event<M>, f: spec_fn(Binding<M>) -> bool) -> bool {
    binding_of(s, e) is Some && f(binding_of(s, e)->0)
}

pub open spec fn is_focus_binding<M>(b: Binding<M>) -> bool {
    b is Focus
}

pub open spec fn is_unfocus_binding<M>(b: Binding<M>) -> bool {
    b is ClickedOutside || b is Unfocus
}

pub open spec fn is_enter_binding<M>(b: Binding<M>) -> bool {
    b is Enter
}

/// Whether the event is a key event whose binding unfocuses the table.
pub open spec fn unfocus_key<M>(s: State, e: Event<M>) -> bool {
    bound_to(s, e, |b: Binding<M>| is_unfocus_binding(b))
}

pub open spec fn focus_key<M>(s: State, e: Event<M>) -> bool {
    bound_to(s, e, |b: Binding<M>| is_focus_binding(b))
}

/// Whether the event is Enter on a focused table.
pub open spec fn enter_key<M>(s: State, e: Event<M>) -> bool {
    bound_to(s, e, |b: Binding<M>| is_enter_binding(b)) && s.is_focused
}

pub open spec fn redraw_dirty<M>(d: Data, e: Event<M>) -> bool {
    e is RedrawRequested && d.dirty
}

/// Whether the event makes the table drop its focus and its clicks.
pub open spec fn resets<M>(s: State, d: Data, e: Event<M>) -> bool {
    pressed_outside(e) || unfocus_key(s, e) || redraw_dirty(d, e)
}

/// Whether the table is focused after the event.
pub open spec fn focused_after<M>(s: State, c: Config, d: Data, e: Event<M>) -> bool {
    if !c.enabled {
        s.is_focused
    } else if resets(s, d, e) {
        false
    } else if divider_press(s, e) || focus_key(s, e) {
        true
    } else if single_inside(e) && !range_contains(d.selection, cell_under(s.region, press_position(e))) {
        true
    } else {
        s.is_focused
    }
}

pub open spec fn interaction_after<M>(s: State, c: Config, d: Data, e: Event<M>) -> Interaction {
    if !c.enabled {
        s.interaction
    } else if resets(s, d, e) || resize_release(s, e) || focus_key(s, e) || enter_key(s, e) {
        Interaction::Idle
    } else if divider_press(s, e) {
        Interaction::ResizeDivider(hit_at(s.region, press_position(e))->0)
    } else {
        s.interaction
    }
}

pub open spec fn last_click_after<M>(s: State, c: Config, d: Data, e: Event<M>) -> Option<Point> {
    if !c.enabled {
        s.last_click
    } else if resets(s, d, e) {
        None
    } else if single_inside(e) {
        Some(press_position(e))
    } else {
        s.last_click
    }
}

pub open spec fn drag_click_after<M>(s: State, c: Config, d: Data, e: Event<M>) -> Option<ClickKind> {
    if !c.enabled {
        s.drag_click
    } else if resets(s, d, e) || e is LeftReleased {
        None
    } else if single_inside(e) {
        Some(ClickKind::Single)
    } else {
        s.drag_click
    }
}

pub open spec fn captured_by<M>(s: State, c: Config, d: Data, e: Event<M>) -> bool {
    c.enabled && (multi_inside(e) || resize_release(s, e) || resize_drag(s, e) || select_drag(s, e)
        || (pressed_outside(e) && s.is_focused))
}

pub open spec fn to_children_by<M>(s: State, c: Config, d: Data, e: Event<M>) -> bool {
    if !c.enabled {
        true
    } else if pressed_outside(e) || divider_press(s, e) || multi_inside(e) || resize_release(s, e)
        || resize_drag(s, e)
        || select_drag(s, e) || bound_to(s, e, |b: Binding<M>| b is ClickedOutside) {
        false
    } else if single_inside(e) {
        c.passthrough
    } else {
        true
    }
}

pub open spec fn layout_by<M>(s: State, c: Config, d: Data, e: Event<M>) -> bool {
    c.enabled && (resize_release(s, e) || resize_drag(s, e) || (select_drag(s, e) && emits(
        s,
        c,
        d,
        e,
    ).len() > 0) || focus_key(s, e) || unfocus_key(s, e) || enter_key(s, e) || redraw_dirty(d, e))
}

pub open spec fn widgets_by<M>(s: State, c: Config, d: Data, e: Event<M>) -> bool {
    c.enabled && (resize_release(s, e) || resize_drag(s, e) || enter_key(s, e))
}

/// The raw size that a divider drag to `p` gives its track: the size it had
/// when the drag began plus the raw delta, at least 0 and at most
/// `u32::MAX`.
pub open spec fn dragged_size(g: Region, h: DividerHit, start: Point, p: Point) -> u32 {
    let v = h.original_size + resize_delta(g, h, start, p);
    if v < 0 { 0 } else if v > u32::MAX { u32::MAX } else { v as u32 }
}

impl State {
    pub open spec fn wf(&self) -> bool {
        self.region.wf()
    }

    /// A fresh state, unfocused, with the geometry of the given declared
    /// sizes fitted to no space yet (no columns and rows when their raw
    /// sizes do not fit in `u32`).
    pub fn new(column_sizes: &Vec<u32>, row_sizes: &Vec<u32>, spacing: Size) -> (r: State)
        ensures
            fresh(r, column_sizes@, row_sizes@, spacing),
    {
        let region = match Region::new(column_sizes, row_sizes, spacing) {
            Some(g) => g,
            None => Region::empty(spacing),
        };
        State {
            last_click: None,
            drag_click: None,
            interaction: Interaction::Idle,
            is_focused: false,
            region,
        }
    }

    /// A fresh state for the host's data.
    pub fn from_data(data: &Data, spacing: Size) -> (r: State)
        ensures
            fresh(r, data.column_sizes@, data.row_sizes@, spacing),
    {
        State::new(&data.column_sizes, &data.row_sizes, spacing)
    }

    /// Whether the table is focused.
    pub fn is_focused(&self) -> (r: bool)
        ensures
            r == self.is_focused,
    {
        self.is_focused
    }

    /// Focuses the table.
    pub fn focus(&mut self)
        ensures
            final(self).is_focused,
            final(self).last_click == old(self).last_click,
            final(self).drag_click == old(self).drag_click,
            final(self).interaction == old(self).interaction,
            final(self).region == old(self).region,
    {
        self.is_focused = true;
    }

    /// Unfocuses the table, forgetting its clicks.
    pub fn unfocus(&mut self)
        ensures
            !final(self).is_focused,
            final(self).last_click is None,
            final(self).drag_click is None,
            final(self).interaction == old(self).interaction,
            final(self).region == old(self).region,
    {
        self.is_focused = false;
        self.drag_click = None;
        self.last_click = None;
    }

    /// The status that key bindings see.
    pub fn status(&self) -> (r: Status)
        ensures
            r == status_of(self.is_focused),
    {
        if self.is_focused { Status::Focused } else { Status::Unfocused }
    }

    /// Fits the geometry to the table's bounds.
    pub fn layout(&mut self, bounds: Size, spacing: Size)
        requires
            old(self).wf(),
        ensures
            final(self).wf(),
            final(self).region.raw_columns() == old(self).region.raw_columns(),
            final(self).region.raw_rows() == old(self).region.raw_rows(),
            final(self).region.bounds() == bounds,
            final(self).region.spacing() == spacing,
            final(self).is_focused == old(self).is_focused,
            final(self).last_click == old(self).last_click,
            final(self).drag_click == old(self).drag_click,
            final(self).interaction == old(self).interaction,
    {
        self.region.scale_to_bounds(bounds, spacing);
    }
}

fn outcome<M>(
    emitted: Vec<Emit<M>>,
    captured: bool,
    to_children: bool,
    invalidate_layout: bool,
    invalidate_widgets: bool,
    set_clean: bool,
) -> (r: Outcome<M>)
    ensures
        r.emitted@ == emitted@,
        r.captured == captured,
        r.to_children == to_children,
        r.invalidate_layout == invalidate_layout,
        r.invalidate_widgets == invalidate_widgets,
        r.set_clean == set_clean,
{
    Outcome { emitted, captured, to_children, invalidate_layout, invalidate_widgets, set_clean }
}

impl State {
    fn cell_at(&self, p: Point) -> (r: Address)
        requires
            self.wf(),
        ensures
            r == cell_under(self.region, p),
    {
        let (x, y) = self.region.find_cell(p);
        Address { x, y }
    }

    /// Applies a binding: what it emits, and whether the event should still
    /// go to the cells' widgets.
    fn apply_binding<M>(&mut self, config: &Config, data: &Data, binding: Binding<M>) -> (r: Outcome<M>)
        requires
            old(self).wf(),
        ensures
            final(self).wf(),
            final(self).region == old(self).region,
            r.emitted@ == binding_emits(*old(self), *config, *data, binding),
            r.captured == false,
            r.to_children == !(binding is ClickedOutside),
            r.invalidate_layout == (binding is Focus || binding is ClickedOutside || binding is Unfocus
                || (binding is Enter && old(self).is_focused)),
            r.invalidate_widgets == (binding is Enter && old(self).is_focused),
            r.set_clean == false,
            final(self).is_focused == (if binding is Focus {
                true
            } else if binding is ClickedOutside || binding is Unfocus {
                false
            } else {
                old(self).is_focused
            }),
            final(self).interaction == (if binding is Focus || binding is ClickedOutside || binding is Unfocus
                || (binding is Enter && old(self).is_focused) {
                Interaction::Idle
            } else {
                old(self).interaction
            }),
            final(self).last_click == (if binding is ClickedOutside || binding is Unfocus {
                None
            } else {
                old(self).last_click
            }),
            final(self).drag_click == (if binding is ClickedOutside || binding is Unfocus {
                None
            } else {
                old(self).drag_click
            }),
    {
        let mut emitted: Vec<Emit<M>> = Vec::new();
        let focused = self.is_focused;
        match binding {
            Binding::Focus => {
                self.interaction = Interaction::Idle;
                self.focus();
                return outcome(emitted, false, true, true, false, false);
            },
            Binding::ClickedOutside => {
                self.interaction = Interaction::Idle;
                self.unfocus();
                return outcome(emitted, false, false, true, false, false);
            },
            Binding::Unfocus => {
                self.interaction = Interaction::Idle;
                self.unfocus();
                return outcome(emitted, false, true, true, false, false);
            },
            Binding::Cut => {
                if focused && config.instructions {
                    emitted.push(Emit::Instruction(Instruction::Cut));
                }
            },
            Binding::Copy => {
                if focused && config.instructions {
                    emitted.push(Emit::Instruction(Instruction::Copy));
                }
            },
            Binding::Paste => {
                if focused && config.instructions {
                    emitted.push(Emit::Instruction(Instruction::Paste));
                }
            },
            Binding::Custom(message) => {
                emitted.push(Emit::Message(message));
            },
            Binding::Delete => {
                if focused {
                    emitted.push(Emit::Action(Action::Edit(Edit::Delete)));
                }
            },
            Binding::StartEdit => {
                if config.instructions {
                    emitted.push(Emit::Instruction(Instruction::Activate(data.selection.start)));
                }
            },
            Binding::Enter => {
                if focused {
                    self.interaction = Interaction::Idle;
                    self.focus();
                    if config.instructions {
                        emitted.push(Emit::Instruction(Instruction::Activate(data.selection.start)));
                    }
                    return outcome(emitted, false, true, true, true, false);
                }
            },
            Binding::MoveSelection(m) => {
                if focused {
                    emitted.push(Emit::Action(Action::MoveSelection(m)));
                }
            },
            Binding::ExpandSelection(m) => {
                if focused {
                    emitted.push(Emit::Action(Action::ExpandSelection(m)));
                }
            },
            Binding::SelectAll => {
                if focused {
                    emitted.push(Emit::Action(Action::SelectAll));
                }
            },
        }
        proof {
            assert(emitted@ =~= binding_emits(*old(self), *config, *data, binding));
        }
        outcome(emitted, false, true, false, false, false)
    }
}

impl State {
    /// Handles one event: updates the table's state and says what the host
    /// should do. A disabled table changes nothing and emits nothing.
    pub fn update<M>(&mut self, config: &Config, data: &Data, event: Event<M>) -> (r: Outcome<M>)
        requires
            old(self).wf(),
        ensures
            final(self).wf(),
            r.emitted@ == emits(*old(self), *config, *data, event),
            r.captured == captured_by(*old(self), *config, *data, event),
            r.to_children == to_children_by(*old(self), *config, *data, event),
            r.invalidate_layout == layout_by(*old(self), *config, *data, event),
            r.invalidate_widgets == widgets_by(*old(self), *config, *data, event),
            r.set_clean == (config.enabled && redraw_dirty(*data, event)),
            final(self).is_focused == focused_after(*old(self), *config, *data, event),
            final(self).interaction == interaction_after(*old(self), *config, *data, event),
            final(self).last_click == last_click_after(*old(self), *config, *data, event),
            final(self).drag_click == drag_click_after(*old(self), *config, *data, event),
            config.enabled && redraw_dirty(*data, event) ==> fresh(
                *final(self),
                data.column_sizes@,
                data.row_sizes@,
                config.spacing,
            ),
            config.enabled && resize_drag(*old(self), event) ==> ({
                let h = old(self).interaction->ResizeDivider_0;
                let size = dragged_size(
                    old(self).region,
                    h,
                    old(self).last_click->0,
                    press_position(event),
                );
                &&& final(self).region.raw_columns() == if h.axis == Axis::Column {
                    with_raw_size(old(self).region.raw_columns(), h.index as int, size)
                } else {
                    old(self).region.raw_columns()
                }
                &&& final(self).region.raw_rows() == if h.axis == Axis::Row {
                    with_raw_size(old(self).region.raw_rows(), h.index as int, size)
                } else {
                    old(self).region.raw_rows()
                }
                &&& final(self).region.bounds() == old(self).region.bounds()
                &&& final(self).region.spacing() == config.spacing
            }),
            !(config.enabled && (redraw_dirty(*data, event) || resize_drag(*old(self), event)))
                ==> final(self).region == old(self).region,
    {
        let ghost s0 = *self;
        let none: Vec<Emit<M>> = Vec::new();
        if !config.enabled {
            return outcome(none, false, true, false, false, false);
        }
        match event {
            Event::LeftPressed { position, inside, kind } => {
                if !inside {
                    let focused = self.is_focused;
                    self.interaction = Interaction::Idle;
                    self.unfocus();
                    return outcome(none, focused, false, false, false, false);
                }
                let mut emitted: Vec<Emit<M>> = Vec::new();
                match kind {
                    ClickKind::Single => {
                        self.last_click = Some(position);
                        self.drag_click = Some(ClickKind::Single);
                        match self.region.find_nearest_divider(position) {
                            Some(hit) => {
                                self.interaction = Interaction::ResizeDivider(hit);
                                self.focus();
                                return outcome(none, false, false, false, false, false);
                            },
                            None => {
                                let cell = self.cell_at(position);
                                if !data.selection.contains(&cell) {
                                    self.focus();
                                    emitted.push(
                                        Emit::Action(Action::Select(Range { start: cell, end: None })),
                                    );
                                }
                                proof {
                                    assert(emitted@ =~= emits(s0, *config, *data, event));
                                }
                                return outcome(emitted, false, config.passthrough, false, false, false);
                            },
                        }
                    },
                    _ => {
                        let cell = self.cell_at(position);
                        if !data.selection.contains(&cell) {
                            emitted.push(Emit::Action(Action::Select(Range { start: cell, end: None })));
                        }
                        if config.instructions {
                            emitted.push(Emit::Instruction(Instruction::Activate(cell)));
                        }
                        proof {
                            assert(emitted@ =~= emits(s0, *config, *data, event));
                        }
                        return outcome(emitted, true, false, false, false, false);
                    },
                }
            },
            Event::OtherPressed { inside } => {
                if !inside {
                    let focused = self.is_focused;
                    self.interaction = Interaction::Idle;
                    self.unfocus();
                    return outcome(none, focused, false, false, false, false);
                }
                outcome(none, false, true, false, false, false)
            },
            Event::LeftReleased { position, .. } => {
                match self.interaction {
                    Interaction::ResizeDivider(hit) => {
                        let mut emitted: Vec<Emit<M>> = Vec::new();
                        match self.last_click {
                            Some(start) => {
                                if let Some(p) = position {
                                    let delta = match hit.axis {
                                        Axis::Column => self.region.raw_delta(Axis::Column, start.x, p.x),
                                        Axis::Row => self.region.raw_delta(Axis::Row, start.y, p.y),
                                    };
                                    emitted.push(
                                        Emit::Action(Action::ResizeDivider(hit.axis, hit.index, delta)),
                                    );
                                }
                            },
                            None => {},
                        }
                        proof {
                            assert(emitted@ =~= emits(s0, *config, *data, event));
                        }
                        self.interaction = Interaction::Idle;
                        self.drag_click = None;
                        outcome(emitted, true, false, true, true, false)
                    },
                    Interaction::Idle => {
                        self.drag_click = None;
                        outcome(none, false, true, false, false, false)
                    },
                }
            },
            Event::CursorMoved { position, inside } => {
                let dragging = match self.drag_click {
                    Some(ClickKind::Single) => true,
                    _ => false,
                };
                if !dragging {
                    return outcome(none, false, true, false, false, false);
                }
                let p = match position {
                    Some(p) => p,
                    None => {
                        return outcome(none, false, true, false, false, false);
                    },
                };
                let start = match self.last_click {
                    Some(s) => s,
                    None => {
                        return outcome(none, false, true, false, false, false);
                    },
                };
                match self.interaction {
                    Interaction::ResizeDivider(hit) => {
                        let delta = match hit.axis {
                            Axis::Column => self.region.raw_delta(Axis::Column, start.x, p.x),
                            Axis::Row => self.region.raw_delta(Axis::Row, start.y, p.y),
                        };
                        let v: i128 = hit.original_size as i128 + delta as i128;
                        let size: u32 = if v < 0 {
                            0
                        } else if v > u32::MAX as i128 {
                            u32::MAX
                        } else {
                            v as u32
                        };
                        self.region.set_raw_size(hit.axis, hit.index, size);
                        let b = self.region.current_bounds();
                        self.region.scale_to_bounds(b, config.spacing);
                        outcome(none, true, false, true, true, false)
                    },
                    Interaction::Idle => {
                        if !inside {
                            return outcome(none, false, true, false, false, false);
                        }
                        let mut emitted: Vec<Emit<M>> = Vec::new();
                        let mut changed = false;
                        if p != start {
                            let a = self.cell_at(start);
                            let b = self.cell_at(p);
                            let range = Range { start: a, end: Some(b) }.normalize();
                            if range != data.selection {
                                emitted.push(Emit::Action(Action::Select(range)));
                                changed = true;
                            }
                        }
                        proof {
                            assert(emitted@ =~= emits(s0, *config, *data, event));
                        }
                        outcome(emitted, true, false, changed, false, false)
                    },
                }
            },
            Event::KeyPressed { key, modifiers } => {
                let status = self.status();
                match Binding::from_key_press(KeyPress { key, modifiers, status }) {
                    Some(b) => self.apply_binding(config, data, b),
                    None => outcome(none, false, true, false, false, false),
                }
            },
            Event::KeyBound(binding) => {
                match binding {
                    Some(b) => self.apply_binding(config, data, b),
                    None => outcome(none, false, true, false, false, false),
                }
            },
            Event::RedrawRequested => {
                if data.dirty {
                    *self = State::from_data(data, config.spacing);
                    return outcome(none, false, true, true, false, true);
                }
                outcome(none, false, true, false, false, false)
            },
            Event::Other => outcome(none, false, true, false, false, false),
        }
    }
}

/// `r` is a fresh state for the declared sizes.
pub open spec fn fresh(r: State, columns: Seq<u32>, rows: Seq<u32>, spacing: Size) -> bool {
    &&& r.wf()
    &&& !r.is_focused
    &&& r.last_click is None
    &&& r.drag_click is None
    &&& r.interaction is Idle
    &&& r.region.spacing() == spacing
    &&& if raw_total(columns, spacing.width) <= u32::MAX && raw_total(rows, spacing.height)
        <= u32::MAX {
        &&& r.region.raw_columns() == raw_sizes(columns, spacing.width)
        &&& r.region.raw_rows() == raw_sizes(rows, spacing.height)
        &&& r.region.bounds() == Size { width: 0, height: 0 }
    } else {
        r.region.raw_columns().len() == 0 && r.region.raw_rows().len() == 0
    }
}

/// A disabled table emits nothing and keeps its state, whatever the event;
/// so no sequence of events makes it emit anything.
pub proof fn lemma_disabled_is_silent<M>(s: State, c: Config, d: Data, e: Event<M>)
    requires
        !c.enabled,
    ensures
        emits(s, c, d, e).len() == 0,
        focused_after(s, c, d, e) == s.is_focused,
        interaction_after(s, c, d, e) == s.interaction,
        last_click_after(s, c, d, e) == s.last_click,
        drag_click_after(s, c, d, e) == s.drag_click,
        !captured_by(s, c, d, e),
{
}

/// What each event of `es` emits, handled in turn by a disabled table that
/// starts in state `s`.
pub open spec fn disabled_run<M>(s: State, c: Config, d: Data, es: Seq<Event<M>>) -> Seq<Emit<M>>
    decreases es.len(),
{
    if es.len() == 0 {
        seq![]
    } else {
        disabled_run(s, c, d, es.drop_last()) + emits(s, c, d, es.last())
    }
}

/// A disabled table emits nothing over any sequence of events.
pub proof fn lemma_disabled_run_is_silent<M>(s: State, c: Config, d: Data, es: Seq<Event<M>>)
    requires
        !c.enabled,
    ensures
        disabled_run(s, c, d, es).len() == 0,
    decreases es.len(),
{
    if es.len() > 0 {
        lemma_disabled_run_is_silent(s, c, d, es.drop_last());
    }
}

/// A double or triple click on a cell outside the selection of an enabled
/// table that handles instructions selects the cell, then activates it.
pub proof fn lemma_double_click_selects_then_activates<M>(
    s: State,
    c: Config,
    d: Data,
    p: Point,
    kind: ClickKind,
)
    requires
        c.enabled,
        c.instructions,
        kind != ClickKind::Single,
        !range_contains(d.selection, cell_under(s.region, p)),
    ensures
        emits(s, c, d, Event::<M>::LeftPressed { position: p, inside: true, kind }) == seq![
            Emit::<M>::Action(Action::Select(single(cell_under(s.region, p)))),
            Emit::<M>::Instruction(Instruction::Activate(cell_under(s.region, p))),
        ],
{
    let e = Event::<M>::LeftPressed { position: p, inside: true, kind };
    assert(emits(s, c, d, e) =~= seq![
        Emit::<M>::Action(Action::Select(single(cell_under(s.region, p)))),
        Emit::<M>::Instruction(Instruction::Activate(cell_under(s.region, p))),
    ]);
}

} // verus!
