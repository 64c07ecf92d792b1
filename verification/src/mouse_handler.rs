use vstd::prelude::*;
use crate::geom::{PaneGeom, PaneId, Position, same_pane};
use crate::input::{Direction, Resize, ResizeStrategy, InputMode};
use crate::mouse_event::{MouseEvent, MouseEventType};
use crate::mouse_action::{
    AcmeHandleDragState, MouseAction, MouseEventContext, PaneEdge, alt_action, ctrl_left_press_action, gesture_action,
    gesture_in_progress, hit_terminal_content, horizontal_wheel_action, hover_action,
    left_drag_action, middle_action, mouse_action_spec, plain_left_press_action,
    vertical_wheel_action,
};

verus! {

/// What the tab must do after a mouse event, beyond the event itself.
#[derive(Debug, Copy, Clone, PartialEq, Eq, Structural)]
pub struct MouseEffect {
    pub state_changed: bool,
    pub leave_clipboard_message: bool,
    pub kill_session_if_no_selectable_panes: bool,
    pub group_toggle: Option<PaneId>,
    pub group_add: Option<PaneId>,
    pub ungroup: bool,
    pub suppress_scroll_mode_sync: bool,
}

/// The effect that asks nothing.
pub open spec fn no_effect() -> MouseEffect {
    MouseEffect {
        state_changed: false,
        leave_clipboard_message: false,
        kill_session_if_no_selectable_panes: false,
        group_toggle: None,
        group_add: None,
        ungroup: false,
        suppress_scroll_mode_sync: false,
    }
}

impl Default for MouseEffect {
    fn default() -> (e: Self)
        ensures
            e == no_effect(),
    {
        MouseEffect {
            state_changed: false,
            leave_clipboard_message: false,
            kill_session_if_no_selectable_panes: false,
            group_toggle: None,
            group_add: None,
            ungroup: false,
            suppress_scroll_mode_sync: false,
        }
    }
}

impl MouseEffect {
    pub fn state_changed() -> (e: Self)
        ensures
            e == (MouseEffect { state_changed: true, ..no_effect() }),
    {
        MouseEffect { state_changed: true, ..Self::default() }
    }

    pub fn state_changed_and_kill_session_if_no_selectable_panes() -> (e: Self)
        ensures
            e == (MouseEffect {
                state_changed: true,
                kill_session_if_no_selectable_panes: true,
                ..no_effect()
            }),
    {
        MouseEffect {
            state_changed: true,
            kill_session_if_no_selectable_panes: true,
            ..Self::default()
        }
    }

    pub fn leave_clipboard_message() -> (e: Self)
        ensures
            e == (MouseEffect { leave_clipboard_message: true, ..no_effect() }),
    {
        MouseEffect { leave_clipboard_message: true, ..Self::default() }
    }

    pub fn state_changed_and_leave_clipboard_message() -> (e: Self)
        ensures
            e == (MouseEffect { state_changed: true, leave_clipboard_message: true, ..no_effect() }),
    {
        MouseEffect { state_changed: true, leave_clipboard_message: true, ..Self::default() }
    }

    pub fn group_toggle(pane_id: PaneId) -> (e: Self)
        ensures
            e == (MouseEffect { state_changed: true, group_toggle: Some(pane_id), ..no_effect() }),
    {
        MouseEffect { state_changed: true, group_toggle: Some(pane_id), ..Self::default() }
    }

    pub fn group_add(pane_id: PaneId) -> (e: Self)
        ensures
            e == (MouseEffect { state_changed: true, group_add: Some(pane_id), ..no_effect() }),
    {
        MouseEffect { state_changed: true, group_add: Some(pane_id), ..Self::default() }
    }

    pub fn ungroup() -> (e: Self)
        ensures
            e == (MouseEffect { state_changed: true, ungroup: true, ..no_effect() }),
    {
        MouseEffect { state_changed: true, ungroup: true, ..Self::default() }
    }

    pub fn suppress_scroll_mode_sync(self) -> (e: Self)
        ensures
            e == (MouseEffect { suppress_scroll_mode_sync: true, ..self }),
    {
        let mut e = self;
        e.suppress_scroll_mode_sync = true;
        e
    }
}

/// A pane resize in progress with the mouse.
#[derive(Debug, Clone, PartialEq, Eq)]
pub struct PaneResizeState {
    pub pane_id: PaneId,
    pub edge: PaneEdge,
    pub start_position: Position,
    pub start_geom: PaneGeom,
    pub is_floating: bool,
    pub acme_resize_snapshot: Option<Vec<(PaneId, PaneGeom)>>,
}

/// Decides what mouse events do.
pub struct MouseHandler;

fn details_hit_terminal_content(c: &MouseEventContext) -> (r: bool)
    ensures
        r == hit_terminal_content(*c),
{
    match c.clicked_pane {
        Some(d) => !d.on_frame && d.pane_id.is_terminal(),
        None => false,
    }
}

fn gesture_action_exec(e: &MouseEvent, c: &MouseEventContext) -> (a: MouseAction)
    requires
        gesture_in_progress(*c),
    ensures
        a == gesture_action(*e, *c),
{
    let p = e.position;
    let motion = e.event_type == MouseEventType::Motion;
    let release = e.event_type == MouseEventType::Release;
    if c.acme_context_menu.is_some() {
        if motion {
            MouseAction::UpdateAcmeContextMenu { position: p }
        } else if release {
            MouseAction::FinishAcmeContextMenu { position: p }
        } else {
            MouseAction::NoAction
        }
    } else if c.pane_being_resized {
        if motion {
            MouseAction::ContinueResize { position: p }
        } else if release {
            MouseAction::StopResize { position: p }
        } else {
            MouseAction::NoAction
        }
    } else if c.selecting_with_mouse {
        if motion && e.left {
            MouseAction::UpdateSelection { position: p }
        } else if release && e.left {
            MouseAction::EndSelection { position: p }
        } else {
            MouseAction::NoAction
        }
    } else if c.pane_being_moved {
        if motion && e.left {
            MouseAction::ContinueMovingFloatingPane { position: p }
        } else if release && e.left {
            MouseAction::StopMovingFloatingPane { position: p }
        } else {
            MouseAction::NoAction
        }
    } else {
        if motion {
            MouseAction::ContinueAcmeHandleDrag { position: p }
        } else if release {
            MouseAction::StopAcmeHandleDrag { position: p }
        } else {
            MouseAction::NoAction
        }
    }
}

fn alt_action_exec(e: &MouseEvent, c: &MouseEventContext) -> (a: MouseAction)
    ensures
        a == alt_action(*e, *c),
{
    let press = e.event_type == MouseEventType::Press;
    let motion = e.event_type == MouseEventType::Motion;
    if let (Some(passthrough_pane_id), Some(details)) = (c.passthrough_pane_id, c.clicked_pane) {
        if details.pane_id == passthrough_pane_id && !details.on_frame
            && details.terminal_wants_mouse {
            return MouseAction::SendToTerminal { pane_id: details.pane_id, event: *e };
        }
    }
    if e.wheel_up || e.wheel_down {
        if !c.advanced_mouse_actions {
            return MouseAction::NoAction;
        }
        if let Some(pane_id) = c.pane_id_at_position {
            if e.wheel_up {
                return MouseAction::ScrollToPreviousPrompt { pane_id };
            }
            return MouseAction::ScrollToNextPrompt { pane_id };
        }
        return MouseAction::NoAction;
    }
    if let Some(pane_id) = c.acme_title_button_pane_id {
        if press && e.left {
            return MouseAction::SwapAcmeColumn { pane_id, direction: Direction::Left };
        }
        if press && e.right {
            return MouseAction::SwapAcmeColumn { pane_id, direction: Direction::Right };
        }
        if e.left || e.right {
            return MouseAction::NoAction;
        }
    }
    if e.left && press {
        if let Some(pane_id) = c.pane_id_at_position {
            return MouseAction::GroupToggle(pane_id);
        }
    }
    if e.left && motion {
        if let Some(pane_id) = c.pane_id_at_position {
            return MouseAction::GroupAdd(pane_id);
        }
    }
    if e.right && press {
        return MouseAction::Ungroup;
    }
    MouseAction::NoAction
}

fn vertical_wheel_action_exec(e: &MouseEvent, c: &MouseEventContext) -> (a: MouseAction)
    requires
        e.wheel_up || e.wheel_down,
    ensures
        a == vertical_wheel_action(*e, *c),
{
    if e.ctrl && !c.mouse_scroll_resize {
        return MouseAction::NoAction;
    }
    if let Some(pane_id) = c.pane_id_at_position {
        if e.ctrl {
            if e.wheel_up {
                return MouseAction::ResizeScrollUp { pane_id };
            }
            return MouseAction::ResizeScrollDown { pane_id };
        }
        if e.wheel_up {
            return MouseAction::ScrollUp { pane_id, lines: 3 };
        }
        return MouseAction::ScrollDown { pane_id, lines: 3 };
    }
    MouseAction::NoAction
}

fn horizontal_wheel_action_exec(e: &MouseEvent, c: &MouseEventContext) -> (a: MouseAction)
    ensures
        a == horizontal_wheel_action(*e, *c),
{
    if let Some(pane_id) = c.pane_id_at_position {
        if e.wheel_left {
            return MouseAction::ScrollLeft { pane_id, cols: 4 };
        }
        return MouseAction::ScrollRight { pane_id, cols: 4 };
    }
    MouseAction::NoAction
}

fn ctrl_left_press_action_exec(e: &MouseEvent, c: &MouseEventContext) -> (a: MouseAction)
    ensures
        a == ctrl_left_press_action(*e, *c),
{
    if let Some(pane_id) = c.acme_title_button_pane_id {
        return MouseAction::NewAcmePane { pane_id };
    }
    if let Some(pane_id) = c.acme_title_pane_id {
        return MouseAction::EqualizeAcmePaneRows { pane_id };
    }
    let details = match c.clicked_pane {
        Some(d) => d,
        None => return MouseAction::NoAction,
    };
    if details.on_frame {
        if c.acme_vertical_border_hit {
            if let Some(edge) = details.edge {
                return MouseAction::EqualizeAcmeColumns { pane_id: details.pane_id, edge };
            }
            return MouseAction::NoAction;
        }
        if details.frame_intercepted {
            return MouseAction::FrameIntercepted { pane_id: details.pane_id };
        }
        if let Some(edge) = details.edge {
            return MouseAction::StartResize {
                pane_id: details.pane_id,
                edge,
                is_floating: details.is_floating,
                position: e.position,
            };
        }
        return MouseAction::NoAction;
    }
    if details.pane_id.is_terminal() {
        return MouseAction::PlumbText { pane_id: details.pane_id, position: e.position };
    }
    MouseAction::NoAction
}

fn plain_left_press_action_exec(e: &MouseEvent, c: &MouseEventContext) -> (a: MouseAction)
    ensures
        a == plain_left_press_action(*e, *c),
{
    let details = match c.clicked_pane {
        Some(d) => d,
        None => return MouseAction::NoAction,
    };
    let is_active_pane = same_pane(Some(details.pane_id), c.active_pane_id);
    let is_pinned_pane = same_pane(c.pinned_selectable, Some(details.pane_id));
    if same_pane(c.acme_wrap_indicator_pane_id, Some(details.pane_id)) {
        return MouseAction::TogglePaneWrap { pane_id: details.pane_id };
    }
    if same_pane(c.acme_title_button_pane_id, Some(details.pane_id)) {
        return MouseAction::StartAcmeHandleDrag { pane_id: details.pane_id, position: e.position };
    }
    if details.on_frame {
        if details.frame_intercepted {
            return MouseAction::FrameIntercepted { pane_id: details.pane_id };
        }
        if c.floating_visible || is_pinned_pane {
            return MouseAction::StartMovingFloatingPane { position: e.position };
        }
        if let Some(edge) = details.edge {
            return MouseAction::StartResize {
                pane_id: details.pane_id,
                edge,
                is_floating: false,
                position: e.position,
            };
        }
        if details.is_acme_title {
            return MouseAction::NoAction;
        }
    }
    if is_active_pane {
        if details.terminal_wants_mouse {
            return MouseAction::SendToTerminal { pane_id: details.pane_id, event: *e };
        } else {
            return MouseAction::StartSelection { pane_id: details.pane_id, position: e.position };
        }
    }
    if !c.floating_visible {
        if let Some(pinned_id) = c.pinned_selectable {
            return MouseAction::ShowFloatingPanesAndFocus { pane_id: pinned_id };
        }
        if c.pinned_unselectable.is_some() {
            return MouseAction::NoAction;
        }
    }
    if c.mouse_click_through && !c.focus_follows_mouse {
        MouseAction::FocusPaneAndClickThrough {
            pane_id: details.pane_id,
            position: e.position,
            event: *e,
        }
    } else {
        MouseAction::FocusPane { pane_id: details.pane_id, position: e.position }
    }
}

fn middle_action_exec(e: &MouseEvent, c: &MouseEventContext) -> (a: MouseAction)
    ensures
        a == middle_action(*e, *c),
{
    let press = e.event_type == MouseEventType::Press;
    if press {
        if let Some(pane_id) = c.acme_title_button_pane_id {
            return MouseAction::AcmeClosePane { pane_id };
        }
    }
    let details = match c.clicked_pane {
        Some(d) => d,
        None => return MouseAction::NoAction,
    };
    let is_active_pane = same_pane(Some(details.pane_id), c.active_pane_id);
    if details.terminal_wants_mouse {
        if is_active_pane {
            return MouseAction::SendToTerminal { pane_id: details.pane_id, event: *e };
        }
    } else if press && details.pane_id.is_terminal() {
        return MouseAction::PasteFromHostClipboard { pane_id: details.pane_id };
    }
    MouseAction::NoAction
}

fn left_drag_action_exec(e: &MouseEvent, c: &MouseEventContext) -> (a: MouseAction)
    ensures
        a == left_drag_action(*e, *c),
{
    let details = match c.clicked_pane {
        Some(d) => d,
        None => return MouseAction::NoAction,
    };
    let is_active_pane = same_pane(Some(details.pane_id), c.active_pane_id);
    if is_active_pane && details.terminal_wants_mouse {
        return MouseAction::SendToTerminal { pane_id: details.pane_id, event: *e };
    }
    MouseAction::NoAction
}

fn hover_action_exec(e: &MouseEvent, c: &MouseEventContext) -> (a: MouseAction)
    ensures
        a == hover_action(*e, *c),
{
    if c.acme_title_pane_id.is_some() {
        return MouseAction::UpdateHover { pane_id: None, position: None };
    }
    let pane_id = match c.pane_id_at_position {
        Some(p) => p,
        None => return MouseAction::UpdateHover { pane_id: None, position: None },
    };
    if same_pane(Some(pane_id), c.active_pane_id) {
        return MouseAction::SendToTerminal { pane_id, event: *e };
    }
    if c.focus_follows_mouse {
        return MouseAction::FocusOnHover { pane_id, position: e.position };
    }
    MouseAction::UpdateHover { pane_id: Some(pane_id), position: Some(e.position) }
}


/// A resize strategy that grows or shrinks toward one direction.
pub open spec fn directed(grow: bool, direction: Direction) -> ResizeStrategy {
    ResizeStrategy {
        resize: if grow { Resize::Increase } else { Resize::Decrease },
        direction: Some(direction),
        invert_on_boundaries: false,
    }
}

/// The vertical part of dragging an edge: the top edge grows the pane when dragged up,
/// the bottom edge when dragged down.
pub open spec fn vertical_strategies(edge: PaneEdge, delta_y: int) -> Seq<ResizeStrategy> {
    match edge {
        PaneEdge::Top | PaneEdge::TopLeft | PaneEdge::TopRight => seq![
            directed(delta_y < 0, Direction::Up),
        ],
        PaneEdge::Bottom | PaneEdge::BottomLeft | PaneEdge::BottomRight => seq![
            directed(delta_y > 0, Direction::Down),
        ],
        _ => seq![],
    }
}

/// The horizontal part of dragging an edge: the left edge grows the pane when dragged left,
/// the right edge when dragged right.
pub open spec fn horizontal_strategies(edge: PaneEdge, delta_x: int) -> Seq<ResizeStrategy> {
    match edge {
        PaneEdge::Left | PaneEdge::TopLeft | PaneEdge::BottomLeft => seq![
            directed(delta_x < 0, Direction::Left),
        ],
        PaneEdge::Right | PaneEdge::TopRight | PaneEdge::BottomRight => seq![
            directed(delta_x > 0, Direction::Right),
        ],
        _ => seq![],
    }
}

/// The resize strategies for dragging `edge` by `(delta_x, delta_y)`: the vertical one first.
pub open spec fn edge_strategies(edge: PaneEdge, delta_x: int, delta_y: int) -> Seq<
    ResizeStrategy,
> {
    vertical_strategies(edge, delta_y) + horizontal_strategies(edge, delta_x)
}

fn strategy(grow: bool, direction: Direction) -> (s: ResizeStrategy)
    ensures
        s == directed(grow, direction),
{
    ResizeStrategy {
        resize: if grow { Resize::Increase } else { Resize::Decrease },
        direction: Some(direction),
        invert_on_boundaries: false,
    }
}

/// The resize strategies that dragging a pane edge or corner by a delta asks for.
pub fn edge_and_delta_to_strategies(edge: PaneEdge, delta_x: isize, delta_y: isize) -> (r: Vec<
    ResizeStrategy,
>)
    ensures
        r@ == edge_strategies(edge, delta_x as int, delta_y as int),
{
    let mut strategies: Vec<ResizeStrategy> = Vec::new();
    match edge {
        PaneEdge::Top | PaneEdge::TopLeft | PaneEdge::TopRight => {
            strategies.push(strategy(delta_y < 0, Direction::Up));
        },
        PaneEdge::Bottom | PaneEdge::BottomLeft | PaneEdge::BottomRight => {
            strategies.push(strategy(delta_y > 0, Direction::Down));
        },
        _ => {},
    }
    match edge {
        PaneEdge::Left | PaneEdge::TopLeft | PaneEdge::BottomLeft => {
            strategies.push(strategy(delta_x < 0, Direction::Left));
        },
        PaneEdge::Right | PaneEdge::TopRight | PaneEdge::BottomRight => {
            strategies.push(strategy(delta_x > 0, Direction::Right));
        },
        _ => {},
    }
    assert(strategies@ =~= edge_strategies(edge, delta_x as int, delta_y as int));
    strategies
}

pub const ACME_HANDLE_DRAG_THRESHOLD: usize = 1;

/// The distance of `a` from `b`.
pub open spec fn distance(a: int, b: int) -> int {
    if a >= b {
        a - b
    } else {
        b - a
    }
}

/// How far the mouse moved, in lines and in columns.
pub fn acme_handle_drag_delta(start: Position, current: Position) -> (d: (usize, usize))
    ensures
        d.0 == distance(start.line as int, current.line as int),
        d.1 == distance(start.column as int, current.column as int),
{
    let line_delta: usize = if start.line >= current.line {
        ((start.line as i128) - (current.line as i128)) as usize
    } else {
        ((current.line as i128) - (start.line as i128)) as usize
    };
    let column_delta: usize = if start.column >= current.column {
        start.column - current.column
    } else {
        current.column - start.column
    };
    (line_delta, column_delta)
}

/// A title-button press becomes a drag once the mouse moved more than the threshold.
pub open spec fn drag_exceeded(start: Position, current: Position) -> bool {
    distance(start.line as int, current.line as int) > ACME_HANDLE_DRAG_THRESHOLD
        || distance(start.column as int, current.column as int) > ACME_HANDLE_DRAG_THRESHOLD
}

pub fn acme_handle_drag_exceeded_threshold(start: Position, current: Position) -> (r: bool)
    ensures
        r == drag_exceeded(start, current),
{
    let (line_delta, column_delta) = acme_handle_drag_delta(start, current);
    line_delta > ACME_HANDLE_DRAG_THRESHOLD || column_delta > ACME_HANDLE_DRAG_THRESHOLD
}

/// Follows the mouse while the title button is held: once a drag, always a drag.
pub fn continue_acme_handle_drag(drag: &mut Option<AcmeHandleDragState>, position: Position)
    ensures
        match *old(drag) {
            Some(d) => *final(drag) == Some(
                AcmeHandleDragState {
                    is_dragging: d.is_dragging || drag_exceeded(d.start_position, position),
                    ..d
                },
            ),
            None => *final(drag) is None,
        },
{
    if let Some(drag_state) = drag {
        let exceeded = acme_handle_drag_exceeded_threshold(drag_state.start_position, position);
        drag_state.is_dragging = drag_state.is_dragging || exceeded;
    }
}

/// Whether a release ends a drag (rather than a click) of the title button.
pub fn acme_handle_drag_is_drag(drag: AcmeHandleDragState, position: Position) -> (r: bool)
    ensures
        r == (drag.is_dragging || drag_exceeded(drag.start_position, position)),
{
    drag.is_dragging || acme_handle_drag_exceeded_threshold(drag.start_position, position)
}

impl MouseHandler {
    /// The action that a mouse event asks of the tab, given what is under the mouse and what
    /// the tab is doing.
    pub fn determine_mouse_action(event: &MouseEvent, ctx: &MouseEventContext) -> (action:
        MouseAction)
        ensures
            action == mouse_action_spec(*event, *ctx),
    {
        let press = event.event_type == MouseEventType::Press;
        let motion = event.event_type == MouseEventType::Motion;
        let release = event.event_type == MouseEventType::Release;
        if ctx.acme_context_menu.is_some() || ctx.pane_being_resized || ctx.selecting_with_mouse
            || ctx.pane_being_moved || ctx.acme_handle_drag.is_some() {
            return gesture_action_exec(event, ctx);
        }
        if ctx.input_mode == InputMode::Search && press && details_hit_terminal_content(ctx) {
            if event.left {
                return MouseAction::SearchDown;
            }
            if event.right {
                return MouseAction::SearchUp;
            }
            if event.middle {
                return MouseAction::CancelSearch;
            }
        }
        if event.right && press && details_hit_terminal_content(ctx) {
            let details = ctx.clicked_pane.unwrap();
            return MouseAction::StartAcmeContextMenu {
                pane_id: details.pane_id,
                position: event.position,
            };
        }
        if event.alt {
            return alt_action_exec(event, ctx);
        }
        if event.wheel_up || event.wheel_down {
            return vertical_wheel_action_exec(event, ctx);
        }
        if event.wheel_left || event.wheel_right {
            return horizontal_wheel_action_exec(event, ctx);
        }
        if event.ctrl && event.right && press {
            if let Some(pane_id) = ctx.acme_title_button_pane_id {
                return MouseAction::NewAcmeColumn { pane_id };
            }
            return MouseAction::NoAction;
        }
        if event.ctrl && event.left && press {
            return ctrl_left_press_action_exec(event, ctx);
        }
        if event.left && press {
            return plain_left_press_action_exec(event, ctx);
        }
        if event.right {
            return MouseAction::NoAction;
        }
        if event.middle {
            return middle_action_exec(event, ctx);
        }
        if event.left && (motion || release) {
            return left_drag_action_exec(event, ctx);
        }
        if motion && !event.left && !event.right && !event.middle {
            return hover_action_exec(event, ctx);
        }
        MouseAction::NoAction
    }
}

/// How moving the mouse continues a pane resize.
#[derive(Debug)]
pub enum ResizeStep {
    /// No resize is in progress.
    NotResizing,
    /// The mouse did not move since the resize began or last stepped: nothing changes.
    Unmoved,
    /// Resize the floating pane by the strategies, by this many columns and rows.
    Floating { strategies: Vec<ResizeStrategy>, columns: usize, rows: usize },
    /// Resize the Acme pane from the heights it had when the resize began, by this many rows.
    Acme { strategies: Vec<ResizeStrategy>, rows: usize },
    /// Resize the tiled pane by the strategies, by this many columns and rows.
    Tiled { strategies: Vec<ResizeStrategy>, columns: usize, rows: usize },
}

/// The distance between two integers.
pub open spec fn abs_diff(a: int, b: int) -> int {
    if a >= b { a - b } else { b - a }
}

/// The positions of a resize fit in signed machine integers.
pub open spec fn resize_positions_fit(state: Option<PaneResizeState>, current: Position) -> bool {
    match state {
        None => true,
        Some(s) => s.start_position.column <= isize::MAX && current.column <= isize::MAX
            && isize::MIN <= current.line - s.start_position.line <= isize::MAX,
    }
}

fn magnitude(a: i128) -> (m: usize)
    requires
        -(usize::MAX as int) <= a <= usize::MAX,
    ensures
        m == (if a >= 0 { a as int } else { -(a as int) }),
{
    if a >= 0 {
        a as usize
    } else {
        (-a) as usize
    }
}

impl MouseHandler {
    /// What moving the mouse to `current` does to the resize in progress: nothing without one;
    /// nothing when the mouse has not moved (unless the resize is an Acme one, which always
    /// starts from the same heights); else the strategies for the dragged edge and the distance
    /// moved, for a floating, Acme or tiled pane.
    pub fn pane_resize_step(state: &Option<PaneResizeState>, current: Position) -> (step: ResizeStep)
        requires
            resize_positions_fit(*state, current),
        ensures
            match *state {
                None => step is NotResizing,
                Some(s) => {
                    let dx = current.column - s.start_position.column;
                    let dy = current.line - s.start_position.line;
                    if dx == 0 && dy == 0 && s.acme_resize_snapshot is None {
                        step is Unmoved
                    } else if s.is_floating {
                        step matches ResizeStep::Floating { strategies, columns, rows }
                            && strategies@ == edge_strategies(s.edge, dx, dy)
                            && columns == abs_diff(current.column as int, s.start_position.column as int)
                            && rows == abs_diff(current.line as int, s.start_position.line as int)
                    } else if s.acme_resize_snapshot is Some {
                        step matches ResizeStep::Acme { strategies, rows }
                            && strategies@ == edge_strategies(s.edge, dx, dy)
                            && rows == abs_diff(current.line as int, s.start_position.line as int)
                    } else {
                        step matches ResizeStep::Tiled { strategies, columns, rows }
                            && strategies@ == edge_strategies(s.edge, dx, dy)
                            && columns == abs_diff(current.column as int, s.start_position.column as int)
                            && rows == abs_diff(current.line as int, s.start_position.line as int)
                    }
                },
            },
    {
        let s = match state {
            Some(s) => s,
            None => return ResizeStep::NotResizing,
        };
        let delta_x: isize = current.column as isize - s.start_position.column as isize;
        let delta_y: isize = current.line - s.start_position.line;
        if delta_x == 0 && delta_y == 0 && s.acme_resize_snapshot.is_none() {
            return ResizeStep::Unmoved;
        }
        let strategies = edge_and_delta_to_strategies(s.edge, delta_x, delta_y);
        let columns = magnitude(delta_x as i128);
        let rows = magnitude(delta_y as i128);
        if s.is_floating {
            ResizeStep::Floating { strategies, columns, rows }
        } else if s.acme_resize_snapshot.is_some() {
            ResizeStep::Acme { strategies, rows }
        } else {
            ResizeStep::Tiled { strategies, columns, rows }
        }
    }

    /// After a step of a resize, the next one measures from the current position, except for
    /// an Acme resize, which always measures from where it began.
    pub fn advance_resize_start(state: &mut Option<PaneResizeState>, current: Position)
        ensures
            match *old(state) {
                None => *final(state) is None,
                Some(s) => *final(state) == Some(if s.acme_resize_snapshot is None {
                    PaneResizeState { start_position: current, ..s }
                } else {
                    s
                }),
            },
    {
        match state {
            Some(s) => {
                if s.acme_resize_snapshot.is_none() {
                    s.start_position = current;
                }
            },
            None => {},
        }
    }
}

/// How a pane under the mouse takes a turn of the wheel.
#[derive(Debug)]
pub enum WheelScroll {
    /// The terminal asked for mouse reports: it gets this one.
    Report(Vec<u8>),
    /// A full-screen program without mouse reports: it gets one cursor key press per line,
    /// each written on its own.
    CursorKeys(Vec<Vec<u8>>),
    /// The pane scrolls its own view by the lines.
    Scroll(usize),
}

/// The cursor key press for one line up (`ESC [ A`) or down (`ESC [ B`).
pub open spec fn cursor_key(up: bool) -> Seq<u8> {
    seq![0x1bu8, 0x5bu8, if up { 0x41u8 } else { 0x42u8 }]
}

/// The pane's mouse report when it has one, else cursor keys in the alternate screen, else a
/// scroll of its view.
pub open spec fn wheel_scroll_is(w: WheelScroll, up: bool, lines: usize, report: Option<Seq<u8>>, alternate_screen: bool) -> bool {
    match report {
        Some(r) => w matches WheelScroll::Report(bytes) && bytes@ == r,
        None => if alternate_screen {
            w matches WheelScroll::CursorKeys(keys) && keys@.len() == lines
                && forall|i: int| 0 <= i < lines ==> (#[trigger] keys@[i])@ == cursor_key(up)
        } else {
            w matches WheelScroll::Scroll(n) && n == lines
        },
    }
}

impl MouseHandler {
    /// What a turn of the wheel by `lines`, up or down, does to the pane under the mouse, given
    /// the mouse report the pane makes of it (if any) and whether it shows the alternate screen.
    pub fn wheel_scroll(up: bool, lines: usize, report: Option<Vec<u8>>, alternate_screen: bool) -> (w: WheelScroll)
        ensures
            wheel_scroll_is(w, up, lines, match report { Some(r) => Some(r@), None => None }, alternate_screen),
    {
        match report {
            Some(bytes) => WheelScroll::Report(bytes),
            None => {
                if alternate_screen {
                    let mut keys: Vec<Vec<u8>> = Vec::new();
                    let mut i: usize = 0;
                    while i < lines
                        invariant
                            i <= lines,
                            keys@.len() == i,
                            forall|k: int| 0 <= k < i ==> (#[trigger] keys@[k])@ == cursor_key(up),
                        decreases lines - i,
                    {
                        let key: Vec<u8> = vec![0x1bu8, 0x5bu8, if up { 0x41u8 } else { 0x42u8 }];
                        assert(key@ =~= cursor_key(up));
                        keys.push(key);
                        i += 1;
                    }
                    WheelScroll::CursorKeys(keys)
                } else {
                    WheelScroll::Scroll(lines)
                }
            },
        }
    }
}



/// Whether an edge or corner has the pane's top side.
pub open spec fn edge_has_top(edge: PaneEdge) -> bool {
    edge == PaneEdge::Top || edge == PaneEdge::TopLeft || edge == PaneEdge::TopRight
}

/// Whether an edge or corner has the pane's bottom side.
pub open spec fn edge_has_bottom(edge: PaneEdge) -> bool {
    edge == PaneEdge::Bottom || edge == PaneEdge::BottomLeft || edge == PaneEdge::BottomRight
}

/// Whether an edge or corner has the pane's left side.
pub open spec fn edge_has_left(edge: PaneEdge) -> bool {
    edge == PaneEdge::Left || edge == PaneEdge::TopLeft || edge == PaneEdge::BottomLeft
}

/// Whether an edge or corner has the pane's right side.
pub open spec fn edge_has_right(edge: PaneEdge) -> bool {
    edge == PaneEdge::Right || edge == PaneEdge::TopRight || edge == PaneEdge::BottomRight
}

/// Dragging an edge or corner asks for one resize per side it has, toward that side, and the
/// pane grows exactly when the side is dragged outward: the bottom side down (`delta_y > 0`),
/// the top side up (`delta_y < 0`), the right side right (`delta_x > 0`), the left side left
/// (`delta_x < 0`); dragged the other way, or not at all, it shrinks. The vertical side comes
/// first, and no resize inverts at the screen's boundaries.
pub proof fn law_dragging_an_edge_outward_grows_the_pane(edge: PaneEdge, delta_x: int, delta_y: int)
    ensures
        ({
            let r = edge_strategies(edge, delta_x, delta_y);
            let vertical = edge_has_top(edge) || edge_has_bottom(edge);
            let horizontal = edge_has_left(edge) || edge_has_right(edge);
            &&& r.len() == (if vertical { 1int } else { 0 }) + (if horizontal { 1int } else { 0 })
            &&& forall|k: int| 0 <= k < r.len() ==> !(#[trigger] r[k]).invert_on_boundaries && match r[k].direction {
                Some(Direction::Down) => edge_has_bottom(edge) && (r[k].resize == Resize::Increase) == (delta_y > 0),
                Some(Direction::Up) => edge_has_top(edge) && (r[k].resize == Resize::Increase) == (delta_y < 0),
                Some(Direction::Right) => edge_has_right(edge) && (r[k].resize == Resize::Increase) == (delta_x > 0),
                Some(Direction::Left) => edge_has_left(edge) && (r[k].resize == Resize::Increase) == (delta_x < 0),
                None => false,
            }
            &&& vertical ==> (r[0].direction == Some(Direction::Up) || r[0].direction == Some(Direction::Down))
            &&& horizontal ==> (r[r.len() - 1].direction == Some(Direction::Left) || r[r.len() - 1].direction == Some(Direction::Right))
        }),
{
    let r = edge_strategies(edge, delta_x, delta_y);
    assert forall|k: int| 0 <= k < r.len() implies !(#[trigger] r[k]).invert_on_boundaries && match r[k].direction {
        Some(Direction::Down) => edge_has_bottom(edge) && (r[k].resize == Resize::Increase) == (delta_y > 0),
        Some(Direction::Up) => edge_has_top(edge) && (r[k].resize == Resize::Increase) == (delta_y < 0),
        Some(Direction::Right) => edge_has_right(edge) && (r[k].resize == Resize::Increase) == (delta_x > 0),
        Some(Direction::Left) => edge_has_left(edge) && (r[k].resize == Resize::Increase) == (delta_x < 0),
        None => false,
    } by {
        let v = vertical_strategies(edge, delta_y);
        let h = horizontal_strategies(edge, delta_x);
        if k < v.len() {
            assert(r[k] == v[k]);
        } else {
            assert(r[k] == h[k - v.len()]);
        }
    }
}

} // verus!
