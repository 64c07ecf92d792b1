use vstd::prelude::*;
use crate::geom::{PaneId, Position, same_pane};
use crate::mouse_event::{MouseEvent, MouseEventType};
use crate::input::{Direction, InputMode};
use crate::context_menu::AcmeContextMenuState;

verus! {

/// The edge or corner of a pane frame under the mouse.
#[derive(Clone, Copy, Debug, PartialEq, Eq, Structural)]
pub enum PaneEdge {
    Left,
    Right,
    Top,
    Bottom,
    TopLeft,
    TopRight,
    BottomLeft,
    BottomRight,
}

/// An Acme title-button press that may turn into a drag.
#[derive(Clone, Copy, Debug, PartialEq, Eq, Structural)]
pub struct AcmeHandleDragState {
    pub pane_id: PaneId,
    pub start_position: Position,
    pub is_dragging: bool,
}

/// What was found under the mouse in the pane it hit.
#[derive(Clone, Copy, Debug, PartialEq, Eq, Structural)]
pub struct ClickedPaneDetails {
    pub pane_id: PaneId,
    pub on_frame: bool,
    pub frame_intercepted: bool,
    pub edge: Option<PaneEdge>,
    pub is_acme_title: bool,
    pub is_floating: bool,
    pub terminal_wants_mouse: bool,
}

/// Everything about the tab that decides what a mouse event does.
#[derive(Clone, Copy, Debug, PartialEq, Eq)]
pub struct MouseEventContext {
    pub pane_id_at_position: Option<PaneId>,
    pub active_pane_id: Option<PaneId>,
    pub floating_visible: bool,
    pub input_mode: InputMode,
    pub pane_being_resized: bool,
    pub selecting_with_mouse: bool,
    pub pane_being_moved: bool,
    pub acme_handle_drag: Option<AcmeHandleDragState>,
    pub acme_context_menu: Option<AcmeContextMenuState>,
    pub clicked_pane: Option<ClickedPaneDetails>,
    pub advanced_mouse_actions: bool,
    pub acme_vertical_border_hit: bool,
    pub acme_title_pane_id: Option<PaneId>,
    pub acme_title_button_pane_id: Option<PaneId>,
    pub acme_wrap_indicator_pane_id: Option<PaneId>,
    pub pinned_selectable: Option<PaneId>,
    pub pinned_unselectable: Option<PaneId>,
    pub focus_follows_mouse: bool,
    pub mouse_click_through: bool,
    pub mouse_scroll_resize: bool,
    pub passthrough_pane_id: Option<PaneId>,
}

/// The action a mouse event asks of the tab.
#[derive(Clone, Copy, Debug, PartialEq)]
pub enum MouseAction {
    GroupToggle(PaneId),
    GroupAdd(PaneId),
    Ungroup,
    StartResize { pane_id: PaneId, edge: PaneEdge, is_floating: bool, position: Position },
    ContinueResize { position: Position },
    StopResize { position: Position },
    FocusPane { pane_id: PaneId, position: Position },
    StartAcmeHandleDrag { pane_id: PaneId, position: Position },
    ContinueAcmeHandleDrag { position: Position },
    StopAcmeHandleDrag { position: Position },
    StartAcmeContextMenu { pane_id: PaneId, position: Position },
    UpdateAcmeContextMenu { position: Position },
    FinishAcmeContextMenu { position: Position },
    NewAcmePane { pane_id: PaneId },
    NewAcmeColumn { pane_id: PaneId },
    EqualizeAcmePaneRows { pane_id: PaneId },
    EqualizeAcmeColumns { pane_id: PaneId, edge: PaneEdge },
    SwapAcmeColumn { pane_id: PaneId, direction: Direction },
    AcmeClosePane { pane_id: PaneId },
    TogglePaneWrap { pane_id: PaneId },
    PasteFromHostClipboard { pane_id: PaneId },
    PlumbText { pane_id: PaneId, position: Position },
    FocusPaneAndClickThrough { pane_id: PaneId, position: Position, event: MouseEvent },
    ShowFloatingPanesAndFocus { pane_id: PaneId },
    StartSelection { pane_id: PaneId, position: Position },
    UpdateSelection { position: Position },
    EndSelection { position: Position },
    StartMovingFloatingPane { position: Position },
    ContinueMovingFloatingPane { position: Position },
    StopMovingFloatingPane { position: Position },
    ScrollUp { pane_id: PaneId, lines: usize },
    ScrollDown { pane_id: PaneId, lines: usize },
    ScrollLeft { pane_id: PaneId, cols: usize },
    ScrollRight { pane_id: PaneId, cols: usize },
    ResizeScrollUp { pane_id: PaneId },
    ResizeScrollDown { pane_id: PaneId },
    ScrollToPreviousPrompt { pane_id: PaneId },
    ScrollToNextPrompt { pane_id: PaneId },
    UpdateHover { pane_id: Option<PaneId>, position: Option<Position> },
    FocusOnHover { pane_id: PaneId, position: Position },
    SearchDown,
    SearchUp,
    CancelSearch,
    SendToTerminal { pane_id: PaneId, event: MouseEvent },
    FrameIntercepted { pane_id: PaneId },
    NoAction,
}

pub open spec fn is_press(e: MouseEvent) -> bool {
    e.event_type == MouseEventType::Press
}

pub open spec fn is_release(e: MouseEvent) -> bool {
    e.event_type == MouseEventType::Release
}

pub open spec fn is_motion(e: MouseEvent) -> bool {
    e.event_type == MouseEventType::Motion
}

/// The content (not the frame) of a terminal pane was hit.
pub open spec fn hit_terminal_content(c: MouseEventContext) -> bool {
    c.clicked_pane matches Some(d) && !d.on_frame && d.pane_id is Terminal
}

/// While a gesture is in progress it takes every event: motion continues it, release ends it.
pub open spec fn gesture_action(e: MouseEvent, c: MouseEventContext) -> MouseAction {
    let p = e.position;
    if c.acme_context_menu is Some {
        if is_motion(e) {
            MouseAction::UpdateAcmeContextMenu { position: p }
        } else if is_release(e) {
            MouseAction::FinishAcmeContextMenu { position: p }
        } else {
            MouseAction::NoAction
        }
    } else if c.pane_being_resized {
        if is_motion(e) {
            MouseAction::ContinueResize { position: p }
        } else if is_release(e) {
            MouseAction::StopResize { position: p }
        } else {
            MouseAction::NoAction
        }
    } else if c.selecting_with_mouse {
        if is_motion(e) && e.left {
            MouseAction::UpdateSelection { position: p }
        } else if is_release(e) && e.left {
            MouseAction::EndSelection { position: p }
        } else {
            MouseAction::NoAction
        }
    } else if c.pane_being_moved {
        if is_motion(e) && e.left {
            MouseAction::ContinueMovingFloatingPane { position: p }
        } else if is_release(e) && e.left {
            MouseAction::StopMovingFloatingPane { position: p }
        } else {
            MouseAction::NoAction
        }
    } else {
        if is_motion(e) {
            MouseAction::ContinueAcmeHandleDrag { position: p }
        } else if is_release(e) {
            MouseAction::StopAcmeHandleDrag { position: p }
        } else {
            MouseAction::NoAction
        }
    }
}

/// A gesture is in progress.
pub open spec fn gesture_in_progress(c: MouseEventContext) -> bool {
    c.acme_context_menu is Some || c.pane_being_resized || c.selecting_with_mouse
        || c.pane_being_moved || c.acme_handle_drag is Some
}

/// In search mode a press on terminal content moves between matches or leaves the search.
pub open spec fn search_press_action(e: MouseEvent, c: MouseEventContext) -> Option<MouseAction> {
    if c.input_mode == InputMode::Search && is_press(e) && hit_terminal_content(c) {
        if e.left {
            Some(MouseAction::SearchDown)
        } else if e.right {
            Some(MouseAction::SearchUp)
        } else if e.middle {
            Some(MouseAction::CancelSearch)
        } else {
            None
        }
    } else {
        None
    }
}

/// What an event does while alt is held.
pub open spec fn alt_action(e: MouseEvent, c: MouseEventContext) -> MouseAction {
    if c.passthrough_pane_id is Some && c.clicked_pane is Some && c.clicked_pane->0.pane_id
        == c.passthrough_pane_id->0 && !c.clicked_pane->0.on_frame
        && c.clicked_pane->0.terminal_wants_mouse {
        MouseAction::SendToTerminal { pane_id: c.clicked_pane->0.pane_id, event: e }
    } else if e.wheel_up || e.wheel_down {
        if !c.advanced_mouse_actions {
            MouseAction::NoAction
        } else if let Some(pane_id) = c.pane_id_at_position {
            if e.wheel_up {
                MouseAction::ScrollToPreviousPrompt { pane_id }
            } else {
                MouseAction::ScrollToNextPrompt { pane_id }
            }
        } else {
            MouseAction::NoAction
        }
    } else if c.acme_title_button_pane_id is Some && is_press(e) && e.left {
        MouseAction::SwapAcmeColumn {
            pane_id: c.acme_title_button_pane_id->0,
            direction: Direction::Left,
        }
    } else if c.acme_title_button_pane_id is Some && is_press(e) && e.right {
        MouseAction::SwapAcmeColumn {
            pane_id: c.acme_title_button_pane_id->0,
            direction: Direction::Right,
        }
    } else if c.acme_title_button_pane_id is Some && (e.left || e.right) {
        MouseAction::NoAction
    } else if e.left && is_press(e) && c.pane_id_at_position is Some {
        MouseAction::GroupToggle(c.pane_id_at_position->0)
    } else if e.left && is_motion(e) && c.pane_id_at_position is Some {
        MouseAction::GroupAdd(c.pane_id_at_position->0)
    } else if e.right && is_press(e) {
        MouseAction::Ungroup
    } else {
        MouseAction::NoAction
    }
}

/// What a vertical wheel turn does without alt.
pub open spec fn vertical_wheel_action(e: MouseEvent, c: MouseEventContext) -> MouseAction {
    if e.ctrl && !c.mouse_scroll_resize {
        MouseAction::NoAction
    } else if let Some(pane_id) = c.pane_id_at_position {
        if e.ctrl {
            if e.wheel_up {
                MouseAction::ResizeScrollUp { pane_id }
            } else {
                MouseAction::ResizeScrollDown { pane_id }
            }
        } else if e.wheel_up {
            MouseAction::ScrollUp { pane_id, lines: 3 }
        } else {
            MouseAction::ScrollDown { pane_id, lines: 3 }
        }
    } else {
        MouseAction::NoAction
    }
}

/// What a horizontal wheel turn does without alt.
pub open spec fn horizontal_wheel_action(e: MouseEvent, c: MouseEventContext) -> MouseAction {
    if let Some(pane_id) = c.pane_id_at_position {
        if e.wheel_left {
            MouseAction::ScrollLeft { pane_id, cols: 4 }
        } else {
            MouseAction::ScrollRight { pane_id, cols: 4 }
        }
    } else {
        MouseAction::NoAction
    }
}

/// What a ctrl-left press does.
pub open spec fn ctrl_left_press_action(e: MouseEvent, c: MouseEventContext) -> MouseAction {
    if let Some(pane_id) = c.acme_title_button_pane_id {
        MouseAction::NewAcmePane { pane_id }
    } else if let Some(pane_id) = c.acme_title_pane_id {
        MouseAction::EqualizeAcmePaneRows { pane_id }
    } else if let Some(d) = c.clicked_pane {
        if d.on_frame {
            if c.acme_vertical_border_hit {
                if let Some(edge) = d.edge {
                    MouseAction::EqualizeAcmeColumns { pane_id: d.pane_id, edge }
                } else {
                    MouseAction::NoAction
                }
            } else if d.frame_intercepted {
                MouseAction::FrameIntercepted { pane_id: d.pane_id }
            } else if let Some(edge) = d.edge {
                MouseAction::StartResize {
                    pane_id: d.pane_id,
                    edge,
                    is_floating: d.is_floating,
                    position: e.position,
                }
            } else {
                MouseAction::NoAction
            }
        } else if d.pane_id is Terminal {
            MouseAction::PlumbText { pane_id: d.pane_id, position: e.position }
        } else {
            MouseAction::NoAction
        }
    } else {
        MouseAction::NoAction
    }
}

/// What a plain left press on pane content or frame does, once decorations are handled.
pub open spec fn left_press_on_pane_action(
    e: MouseEvent,
    c: MouseEventContext,
    d: ClickedPaneDetails,
) -> MouseAction {
    let is_active = c.active_pane_id == Some(d.pane_id);
    if is_active {
        if d.terminal_wants_mouse {
            MouseAction::SendToTerminal { pane_id: d.pane_id, event: e }
        } else {
            MouseAction::StartSelection { pane_id: d.pane_id, position: e.position }
        }
    } else if !c.floating_visible && c.pinned_selectable is Some {
        MouseAction::ShowFloatingPanesAndFocus { pane_id: c.pinned_selectable->0 }
    } else if !c.floating_visible && c.pinned_unselectable is Some {
        MouseAction::NoAction
    } else if c.mouse_click_through && !c.focus_follows_mouse {
        MouseAction::FocusPaneAndClickThrough { pane_id: d.pane_id, position: e.position, event: e }
    } else {
        MouseAction::FocusPane { pane_id: d.pane_id, position: e.position }
    }
}

/// What a plain left press does.
pub open spec fn plain_left_press_action(e: MouseEvent, c: MouseEventContext) -> MouseAction {
    if let Some(d) = c.clicked_pane {
        let is_pinned = c.pinned_selectable == Some(d.pane_id);
        if c.acme_wrap_indicator_pane_id == Some(d.pane_id) {
            MouseAction::TogglePaneWrap { pane_id: d.pane_id }
        } else if c.acme_title_button_pane_id == Some(d.pane_id) {
            MouseAction::StartAcmeHandleDrag { pane_id: d.pane_id, position: e.position }
        } else if d.on_frame && d.frame_intercepted {
            MouseAction::FrameIntercepted { pane_id: d.pane_id }
        } else if d.on_frame && (c.floating_visible || is_pinned) {
            MouseAction::StartMovingFloatingPane { position: e.position }
        } else if d.on_frame && d.edge is Some {
            MouseAction::StartResize {
                pane_id: d.pane_id,
                edge: d.edge->0,
                is_floating: false,
                position: e.position,
            }
        } else if d.on_frame && d.is_acme_title {
            MouseAction::NoAction
        } else {
            left_press_on_pane_action(e, c, d)
        }
    } else {
        MouseAction::NoAction
    }
}

/// What a middle-button event does.
pub open spec fn middle_action(e: MouseEvent, c: MouseEventContext) -> MouseAction {
    if is_press(e) && c.acme_title_button_pane_id is Some {
        MouseAction::AcmeClosePane { pane_id: c.acme_title_button_pane_id->0 }
    } else if let Some(d) = c.clicked_pane {
        if d.terminal_wants_mouse {
            if c.active_pane_id == Some(d.pane_id) {
                MouseAction::SendToTerminal { pane_id: d.pane_id, event: e }
            } else {
                MouseAction::NoAction
            }
        } else if is_press(e) && d.pane_id is Terminal {
            MouseAction::PasteFromHostClipboard { pane_id: d.pane_id }
        } else {
            MouseAction::NoAction
        }
    } else {
        MouseAction::NoAction
    }
}

/// What a left-button drag or release does outside any gesture.
pub open spec fn left_drag_action(e: MouseEvent, c: MouseEventContext) -> MouseAction {
    if let Some(d) = c.clicked_pane {
        if c.active_pane_id == Some(d.pane_id) && d.terminal_wants_mouse {
            MouseAction::SendToTerminal { pane_id: d.pane_id, event: e }
        } else {
            MouseAction::NoAction
        }
    } else {
        MouseAction::NoAction
    }
}

/// What moving the mouse with no button held does.
pub open spec fn hover_action(e: MouseEvent, c: MouseEventContext) -> MouseAction {
    if c.acme_title_pane_id is Some {
        MouseAction::UpdateHover { pane_id: None, position: None }
    } else if let Some(pane_id) = c.pane_id_at_position {
        if c.active_pane_id == Some(pane_id) {
            MouseAction::SendToTerminal { pane_id, event: e }
        } else if c.focus_follows_mouse {
            MouseAction::FocusOnHover { pane_id, position: e.position }
        } else {
            MouseAction::UpdateHover { pane_id: Some(pane_id), position: Some(e.position) }
        }
    } else {
        MouseAction::UpdateHover { pane_id: None, position: None }
    }
}

/// The action that a mouse event asks for in a given context, by order of precedence.
pub open spec fn mouse_action_spec(e: MouseEvent, c: MouseEventContext) -> MouseAction {
    if gesture_in_progress(c) {
        gesture_action(e, c)
    } else if search_press_action(e, c) is Some {
        search_press_action(e, c)->0
    } else if e.right && is_press(e) && hit_terminal_content(c) {
        MouseAction::StartAcmeContextMenu {
            pane_id: c.clicked_pane->0.pane_id,
            position: e.position,
        }
    } else if e.alt {
        alt_action(e, c)
    } else if e.wheel_up || e.wheel_down {
        vertical_wheel_action(e, c)
    } else if e.wheel_left || e.wheel_right {
        horizontal_wheel_action(e, c)
    } else if e.ctrl && e.right && is_press(e) {
        if let Some(pane_id) = c.acme_title_button_pane_id {
            MouseAction::NewAcmeColumn { pane_id }
        } else {
            MouseAction::NoAction
        }
    } else if e.ctrl && e.left && is_press(e) {
        ctrl_left_press_action(e, c)
    } else if e.left && is_press(e) {
        plain_left_press_action(e, c)
    } else if e.right {
        MouseAction::NoAction
    } else if e.middle {
        middle_action(e, c)
    } else if e.left && (is_motion(e) || is_release(e)) {
        left_drag_action(e, c)
    } else if is_motion(e) && !e.left && !e.right && !e.middle {
        hover_action(e, c)
    } else {
        MouseAction::NoAction
    }
}

/// While the Acme context menu is open it takes every mouse event: motion moves its selection,
/// a release finishes it, anything else does nothing.
pub proof fn law_open_context_menu_captures_events(e: MouseEvent, c: MouseEventContext)
    requires
        c.acme_context_menu is Some,
    ensures
        mouse_action_spec(e, c) is UpdateAcmeContextMenu || mouse_action_spec(e, c) is FinishAcmeContextMenu
            || mouse_action_spec(e, c) is NoAction,
{
}

/// A mouse event is only ever forwarded to the active pane, or, with alt held, to the pane that
/// lets alt-events through.
pub proof fn law_events_reach_only_active_or_passthrough_pane(e: MouseEvent, c: MouseEventContext)
    ensures
        match mouse_action_spec(e, c) {
            MouseAction::SendToTerminal { pane_id, .. } => c.active_pane_id == Some(pane_id)
                || c.passthrough_pane_id == Some(pane_id),
            _ => true,
        },
{
}

/// A text selection only starts in the active pane.
pub proof fn law_selection_starts_in_active_pane(e: MouseEvent, c: MouseEventContext)
    ensures
        match mouse_action_spec(e, c) {
            MouseAction::StartSelection { pane_id, .. } => c.active_pane_id == Some(pane_id),
            _ => true,
        },
{
}

/// When resizing with ctrl and the wheel is switched off, a ctrl-wheel turn does nothing at
/// all: it does not fall through to ordinary scrolling.
pub proof fn law_disabled_ctrl_scroll_does_nothing(e: MouseEvent, c: MouseEventContext)
    requires
        !gesture_in_progress(c),
        e.ctrl,
        e.wheel_up || e.wheel_down,
        !e.alt,
        !e.left,
        !e.right,
        !e.middle,
        !c.mouse_scroll_resize,
    ensures
        mouse_action_spec(e, c) == MouseAction::NoAction,
{
}

/// A right press on the content of a terminal pane opens its context menu, unless a gesture is
/// in progress or search mode takes the press.
pub proof fn law_right_press_on_terminal_opens_menu(e: MouseEvent, c: MouseEventContext)
    requires
        !gesture_in_progress(c),
        c.input_mode != InputMode::Search,
        e.right,
        is_press(e),
        hit_terminal_content(c),
    ensures
        mouse_action_spec(e, c) == (MouseAction::StartAcmeContextMenu {
            pane_id: c.clicked_pane->0.pane_id,
            position: e.position,
        }),
{
}

/// What a click finds in the pane it hit, from what the pane says of the position: a hidden
/// member of a stack list has no frame to hit; the frame may intercept the event (asked only on
/// the frame); the edge comes from the frame, or from the Acme title line when the position is
/// on the title of this (tiled) pane, which then counts as a frame hit that neither the frame
/// handler nor the terminal takes; only the active pane's terminal can want the mouse.
pub open spec fn clicked_details(
    pane_id: PaneId,
    is_floating: bool,
    is_hidden_stack_list_member: bool,
    position_on_frame: bool,
    frame_intercepts: bool,
    frame_edge: Option<PaneEdge>,
    active_pane_id: Option<PaneId>,
    terminal_reports_click: bool,
    acme_title_pane_id: Option<PaneId>,
    acme_title_edge: Option<PaneEdge>,
) -> ClickedPaneDetails {
    let on_frame = !is_hidden_stack_list_member && position_on_frame;
    let title_hit = !is_floating && acme_title_pane_id == Some(pane_id);
    let wants_mouse = active_pane_id == Some(pane_id) && terminal_reports_click;
    ClickedPaneDetails {
        pane_id,
        on_frame: on_frame || title_hit,
        frame_intercepted: on_frame && frame_intercepts && !title_hit,
        edge: if title_hit { acme_title_edge } else if on_frame { frame_edge } else { None },
        is_acme_title: title_hit,
        is_floating,
        terminal_wants_mouse: wants_mouse && !title_hit,
    }
}

/// What a click finds in the pane it hit.
pub fn gather_clicked_pane_details(
    pane_id: PaneId,
    is_floating: bool,
    is_hidden_stack_list_member: bool,
    position_on_frame: bool,
    frame_intercepts: bool,
    frame_edge: Option<PaneEdge>,
    active_pane_id: Option<PaneId>,
    terminal_reports_click: bool,
    acme_title_pane_id: Option<PaneId>,
    acme_title_edge: Option<PaneEdge>,
) -> (d: ClickedPaneDetails)
    ensures
        d == clicked_details(
            pane_id,
            is_floating,
            is_hidden_stack_list_member,
            position_on_frame,
            frame_intercepts,
            frame_edge,
            active_pane_id,
            terminal_reports_click,
            acme_title_pane_id,
            acme_title_edge,
        ),
{
    let on_frame = !is_hidden_stack_list_member && position_on_frame;
    let frame_intercepted = on_frame && frame_intercepts;
    let default_edge = if on_frame { frame_edge } else { None };
    let terminal_wants_mouse = same_pane(Some(pane_id), active_pane_id) && terminal_reports_click;
    let acme_title_hit = !is_floating && same_pane(acme_title_pane_id, Some(pane_id));
    let edge = if acme_title_hit { acme_title_edge } else { default_edge };
    ClickedPaneDetails {
        pane_id,
        on_frame: on_frame || acme_title_hit,
        frame_intercepted: frame_intercepted && !acme_title_hit,
        edge,
        is_acme_title: acme_title_hit,
        is_floating,
        terminal_wants_mouse: terminal_wants_mouse && !acme_title_hit,
    }
}


/// What the tab knows about a mouse event before deciding on it, as plain values: the panes
/// under the mouse and active, the client's input mode (absent: the tab's default), the
/// gestures in progress, the pane hit and whether it sits in an Acme column with the mouse on
/// its vertical frame, the Acme title, title button and wrap indicator under the mouse, the
/// pinned floating panes under it, and the tab's mouse settings.
#[derive(Clone, Copy, Debug)]
pub struct MouseEventFacts {
    pub pane_id_at_position: Option<PaneId>,
    pub active_pane_id: Option<PaneId>,
    pub floating_visible: bool,
    pub client_input_mode: Option<InputMode>,
    pub default_input_mode: InputMode,
    pub pane_being_resized: bool,
    pub selecting_with_mouse: bool,
    pub pane_being_moved: bool,
    pub acme_handle_drag: Option<AcmeHandleDragState>,
    pub acme_context_menu: Option<AcmeContextMenuState>,
    pub clicked_pane: Option<ClickedPaneDetails>,
    pub clicked_pane_in_acme_column: bool,
    pub position_on_vertical_frame: bool,
    pub advanced_mouse_actions: bool,
    pub acme_title_pane_id: Option<PaneId>,
    pub acme_title_button_pane_id: Option<PaneId>,
    pub acme_wrap_indicator_pane_id: Option<PaneId>,
    pub pinned_selectable: Option<PaneId>,
    pub pinned_unselectable: Option<PaneId>,
    pub focus_follows_mouse: bool,
    pub mouse_click_through: bool,
    pub mouse_scroll_resize: bool,
    pub passthrough_pane_id: Option<PaneId>,
}

/// The context of a mouse event: with the floating panes showing, no Acme title, button or wrap
/// indicator and no pinned pane counts; the Acme vertical border is hit when the mouse is on the
/// frame of a pane of an Acme column, on its vertical part; the input mode is the client's, or
/// the tab's default.
pub open spec fn context_from(f: MouseEventFacts) -> MouseEventContext {
    MouseEventContext {
        pane_id_at_position: f.pane_id_at_position,
        active_pane_id: f.active_pane_id,
        floating_visible: f.floating_visible,
        input_mode: match f.client_input_mode {
            Some(m) => m,
            None => f.default_input_mode,
        },
        pane_being_resized: f.pane_being_resized,
        selecting_with_mouse: f.selecting_with_mouse,
        pane_being_moved: f.pane_being_moved,
        acme_handle_drag: f.acme_handle_drag,
        acme_context_menu: f.acme_context_menu,
        clicked_pane: f.clicked_pane,
        advanced_mouse_actions: f.advanced_mouse_actions,
        acme_vertical_border_hit: match f.clicked_pane {
            Some(d) => d.on_frame && f.clicked_pane_in_acme_column && f.position_on_vertical_frame,
            None => false,
        },
        acme_title_pane_id: if f.floating_visible { None } else { f.acme_title_pane_id },
        acme_title_button_pane_id: if f.floating_visible { None } else { f.acme_title_button_pane_id },
        acme_wrap_indicator_pane_id: if f.floating_visible { None } else { f.acme_wrap_indicator_pane_id },
        pinned_selectable: if f.floating_visible { None } else { f.pinned_selectable },
        pinned_unselectable: if f.floating_visible { None } else { f.pinned_unselectable },
        focus_follows_mouse: f.focus_follows_mouse,
        mouse_click_through: f.mouse_click_through,
        mouse_scroll_resize: f.mouse_scroll_resize,
        passthrough_pane_id: f.passthrough_pane_id,
    }
}

/// The context of a mouse event, from what the tab knows about it.
pub fn gather_mouse_event_context(facts: &MouseEventFacts) -> (ctx: MouseEventContext)
    ensures
        ctx == context_from(*facts),
{
    let floating_visible = facts.floating_visible;
    let acme_vertical_border_hit = match facts.clicked_pane {
        Some(d) => d.on_frame && facts.clicked_pane_in_acme_column && facts.position_on_vertical_frame,
        None => false,
    };
    MouseEventContext {
        pane_id_at_position: facts.pane_id_at_position,
        active_pane_id: facts.active_pane_id,
        floating_visible,
        input_mode: match facts.client_input_mode {
            Some(m) => m,
            None => facts.default_input_mode,
        },
        pane_being_resized: facts.pane_being_resized,
        selecting_with_mouse: facts.selecting_with_mouse,
        pane_being_moved: facts.pane_being_moved,
        acme_handle_drag: facts.acme_handle_drag,
        acme_context_menu: facts.acme_context_menu,
        clicked_pane: facts.clicked_pane,
        advanced_mouse_actions: facts.advanced_mouse_actions,
        acme_vertical_border_hit,
        acme_title_pane_id: if floating_visible { None } else { facts.acme_title_pane_id },
        acme_title_button_pane_id: if floating_visible { None } else { facts.acme_title_button_pane_id },
        acme_wrap_indicator_pane_id: if floating_visible { None } else { facts.acme_wrap_indicator_pane_id },
        pinned_selectable: if floating_visible { None } else { facts.pinned_selectable },
        pinned_unselectable: if floating_visible { None } else { facts.pinned_unselectable },
        focus_follows_mouse: facts.focus_follows_mouse,
        mouse_click_through: facts.mouse_click_through,
        mouse_scroll_resize: facts.mouse_scroll_resize,
        passthrough_pane_id: facts.passthrough_pane_id,
    }
}


} // verus!
