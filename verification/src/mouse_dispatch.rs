use vstd::prelude::*;
use crate::geom::Size;
use crate::context_menu::{AcmeContextMenuAction, AcmeContextMenuState, new_menu};
use crate::mouse_action::{AcmeHandleDragState, MouseAction};
use crate::mouse_event::MouseEventType;
use crate::mouse_handler::{MouseEffect, continue_acme_handle_drag, drag_exceeded, no_effect};
use crate::hover::{HoverNotices, HoverSettings, HoverState, hovered, update_hover};

verus! {

/// What a tab keeps for one client between mouse events, as far as carrying out a mouse
/// action goes: the client's hover (which holds whether the mouse help text is up), the
/// client's open context menu, and the Acme title-button press in progress.
#[derive(Clone, Copy, Debug)]
pub struct ClientMouseState {
    pub hover: HoverState,
    pub context_menu: Option<AcmeContextMenuState>,
    pub acme_handle_drag: Option<AcmeHandleDragState>,
}

/// What carrying out a mouse action asks of the tab besides the state changes.
#[derive(Clone, Copy, Debug)]
pub struct MouseDispatch {
    /// The effect, when the action decides it by itself; `None` when the tab's own work for the
    /// action (focusing, scrolling, resizing, selecting, ...) decides it.
    pub effect: Option<MouseEffect>,
    /// The client's hover is cleared first.
    pub clear_hover: bool,
    /// Every pane is drawn again.
    pub force_render: bool,
    /// An entry chosen in the context menu on release, with the menu as it stood then.
    pub menu_choice: Option<(AcmeContextMenuState, AcmeContextMenuAction)>,
    /// The panes to tell that the hover changed, after a hover update.
    pub hover_notices: Option<HoverNotices>,
}

/// Only hovering and motion sent to a terminal leave the mouse help text up when the action
/// starts (hovering then takes it down itself).
pub open spec fn preserves_help_text(action: MouseAction) -> bool {
    match action {
        MouseAction::UpdateHover { .. } => true,
        MouseAction::SendToTerminal { event, .. } => event.event_type == MouseEventType::Motion,
        _ => false,
    }
}

pub open spec fn state_changed_effect() -> MouseEffect {
    MouseEffect { state_changed: true, ..no_effect() }
}

pub open spec fn search_effect() -> MouseEffect {
    MouseEffect { state_changed: true, suppress_scroll_mode_sync: true, ..no_effect() }
}

/// A dispatch with only an effect.
pub open spec fn only(effect: Option<MouseEffect>, clear_hover: bool, force_render: bool) -> MouseDispatch {
    MouseDispatch { effect, clear_hover, force_render, menu_choice: None, hover_notices: None }
}

/// Carrying out a mouse action on a client's state: the help text comes down unless the
/// action preserves it; each action then changes the state and asks for an effect:
/// - a hover update updates the client's hover as `hovered` says, over the pane under the
///   mouse (whose existence and selectability `hovered_pane_selectable` gives), and asks the
///   tab to tell the panes it names;
/// - adding to or leaving a group, a search step, a frame interception, showing floating panes,
///   pasting from the host clipboard, and doing nothing have their fixed effect;
/// - starting a resize, a title-button press, a new Acme pane or column, or closing a pane
///   clear the hover and change the state (closing also asks to end the session when no
///   selectable pane is left); a title-button press is recorded at its position, not yet a drag;
/// - the held title button becomes a drag once it moves past the threshold;
/// - a right press opens the context menu at the mouse (clearing the hover, redrawing); motion
///   moves the open menu's state, redrawing when it changed;
/// - finishing the menu always closes it; an open menu follows the release first, its entry
///   under the release (or the dragged one) is chosen, the panes are redrawn, and choosing
///   look changes the state without syncing scroll mode;
/// - equalizing, swapping columns and toggling wrapping clear the hover and leave the effect to
///   the tab's work, as every other action does.
pub open spec fn dispatched(
    action: MouseAction,
    state: ClientMouseState,
    display_size: Size,
    hover_settings: HoverSettings,
    hovered_pane_selectable: Option<bool>,
) -> (ClientMouseState, MouseDispatch) {
    let s = ClientMouseState {
        hover: HoverState {
            help_text_visible: if preserves_help_text(action) { state.hover.help_text_visible } else { None },
            ..state.hover
        },
        ..state
    };
    match action {
        MouseAction::UpdateHover { pane_id, position } => {
            let (h, n, e) = hovered(s.hover, hover_settings, pane_id, position, hovered_pane_selectable);
            (
                ClientMouseState { hover: h, ..s },
                MouseDispatch { effect: Some(e), clear_hover: false, force_render: false, menu_choice: None, hover_notices: Some(n) },
            )
        },
        MouseAction::GroupAdd(p) => (s, only(Some(MouseEffect { state_changed: true, group_add: Some(p), ..no_effect() }), false, false)),
        MouseAction::Ungroup => (s, only(Some(MouseEffect { state_changed: true, ungroup: true, ..no_effect() }), false, false)),
        MouseAction::NoAction => (s, only(Some(no_effect()), false, false)),
        MouseAction::FrameIntercepted { .. } => (s, only(Some(state_changed_effect()), false, true)),
        MouseAction::SearchDown => (s, only(Some(search_effect()), false, false)),
        MouseAction::SearchUp => (s, only(Some(search_effect()), false, false)),
        MouseAction::CancelSearch => (s, only(Some(search_effect()), false, false)),
        MouseAction::ShowFloatingPanesAndFocus { .. } => (s, only(Some(state_changed_effect()), false, false)),
        MouseAction::PasteFromHostClipboard { .. } => (s, only(Some(state_changed_effect()), false, false)),
        MouseAction::StartResize { .. } => (s, only(Some(state_changed_effect()), true, false)),
        MouseAction::NewAcmePane { .. } => (s, only(Some(state_changed_effect()), true, false)),
        MouseAction::NewAcmeColumn { .. } => (s, only(Some(state_changed_effect()), true, false)),
        MouseAction::AcmeClosePane { .. } => (s, only(Some(MouseEffect {
            state_changed: true,
            kill_session_if_no_selectable_panes: true,
            ..no_effect()
        }), true, false)),
        MouseAction::StartAcmeHandleDrag { pane_id, position } => (
            ClientMouseState {
                acme_handle_drag: Some(AcmeHandleDragState { pane_id, start_position: position, is_dragging: false }),
                ..s
            },
            only(Some(state_changed_effect()), true, false),
        ),
        MouseAction::ContinueAcmeHandleDrag { position } => (
            ClientMouseState {
                acme_handle_drag: match s.acme_handle_drag {
                    Some(d) => Some(AcmeHandleDragState {
                        is_dragging: d.is_dragging || drag_exceeded(d.start_position, position),
                        ..d
                    }),
                    None => None,
                },
                ..s
            },
            only(Some(no_effect()), false, false),
        ),
        MouseAction::StartAcmeContextMenu { pane_id, position } => (
            ClientMouseState { context_menu: Some(new_menu(pane_id, position, display_size)), ..s },
            only(Some(no_effect()), true, true),
        ),
        MouseAction::UpdateAcmeContextMenu { position } => match s.context_menu {
            Some(m) => (
                ClientMouseState { context_menu: Some(m.spec_updated(position, display_size)), ..s },
                only(Some(no_effect()), false, m.spec_updated(position, display_size) != m),
            ),
            None => (s, only(Some(no_effect()), false, false)),
        },
        MouseAction::FinishAcmeContextMenu { position } => match s.context_menu {
            Some(m) => {
                let moved = m.spec_updated(position, display_size);
                let choice = moved.spec_action_for_release(position);
                (
                    ClientMouseState { context_menu: None, ..s },
                    MouseDispatch {
                        effect: Some(if choice == Some(AcmeContextMenuAction::Look) { search_effect() } else { no_effect() }),
                        clear_hover: false,
                        force_render: true,
                        menu_choice: match choice {
                            Some(a) => Some((moved, a)),
                            None => None,
                        },
                        hover_notices: None,
                    },
                )
            },
            None => (s, only(Some(no_effect()), false, false)),
        },
        MouseAction::EqualizeAcmePaneRows { .. } => (s, only(None, true, false)),
        MouseAction::EqualizeAcmeColumns { .. } => (s, only(None, true, false)),
        MouseAction::SwapAcmeColumn { .. } => (s, only(None, true, false)),
        MouseAction::TogglePaneWrap { .. } => (s, only(None, true, false)),
        _ => (s, only(None, false, false)),
    }
}

/// Carries out what a mouse action decides by itself on a client's state, and says what the
/// tab must still do.
pub fn execute_mouse_action(
    action: MouseAction,
    state: &mut ClientMouseState,
    display_size: Size,
    hover_settings: HoverSettings,
    hovered_pane_selectable: Option<bool>,
) -> (d: MouseDispatch)
    ensures
        ({
            let (s, e) = dispatched(action, *old(state), display_size, hover_settings, hovered_pane_selectable);
            *final(state) == s && d == e
        }),
{
    let preserves = match action {
        MouseAction::UpdateHover { .. } => true,
        MouseAction::SendToTerminal { event, .. } => event.event_type == MouseEventType::Motion,
        _ => false,
    };
    if !preserves {
        state.hover.help_text_visible = None;
    }
    let none = MouseDispatch { effect: None, clear_hover: false, force_render: false, menu_choice: None, hover_notices: None };
    match action {
        MouseAction::UpdateHover { pane_id, position } => {
            let (notices, effect) = update_hover(&mut state.hover, hover_settings, pane_id, position, hovered_pane_selectable);
            MouseDispatch { effect: Some(effect), hover_notices: Some(notices), ..none }
        },
        MouseAction::GroupAdd(p) => MouseDispatch { effect: Some(MouseEffect::group_add(p)), ..none },
        MouseAction::Ungroup => MouseDispatch { effect: Some(MouseEffect::ungroup()), ..none },
        MouseAction::NoAction => MouseDispatch { effect: Some(MouseEffect::default()), ..none },
        MouseAction::FrameIntercepted { .. } => MouseDispatch {
            effect: Some(MouseEffect::state_changed()),
            force_render: true,
            ..none
        },
        MouseAction::SearchDown | MouseAction::SearchUp | MouseAction::CancelSearch => MouseDispatch {
            effect: Some(MouseEffect::state_changed().suppress_scroll_mode_sync()),
            ..none
        },
        MouseAction::ShowFloatingPanesAndFocus { .. } | MouseAction::PasteFromHostClipboard { .. } => {
            MouseDispatch { effect: Some(MouseEffect::state_changed()), ..none }
        },
        MouseAction::StartResize { .. } | MouseAction::NewAcmePane { .. } | MouseAction::NewAcmeColumn {
            ..
        } => MouseDispatch { effect: Some(MouseEffect::state_changed()), clear_hover: true, ..none },
        MouseAction::AcmeClosePane { .. } => MouseDispatch {
            effect: Some(MouseEffect::state_changed_and_kill_session_if_no_selectable_panes()),
            clear_hover: true,
            ..none
        },
        MouseAction::StartAcmeHandleDrag { pane_id, position } => {
            state.acme_handle_drag = Some(AcmeHandleDragState { pane_id, start_position: position, is_dragging: false });
            MouseDispatch { effect: Some(MouseEffect::state_changed()), clear_hover: true, ..none }
        },
        MouseAction::ContinueAcmeHandleDrag { position } => {
            continue_acme_handle_drag(&mut state.acme_handle_drag, position);
            MouseDispatch { effect: Some(MouseEffect::default()), ..none }
        },
        MouseAction::StartAcmeContextMenu { pane_id, position } => {
            state.context_menu = Some(AcmeContextMenuState::new(pane_id, position, display_size));
            MouseDispatch { effect: Some(MouseEffect::default()), clear_hover: true, force_render: true, ..none }
        },
        MouseAction::UpdateAcmeContextMenu { position } => {
            let mut changed = false;
            match state.context_menu {
                Some(m) => {
                    let mut menu = m;
                    changed = menu.update_for_mouse_position(position, display_size);
                    state.context_menu = Some(menu);
                },
                None => {},
            }
            MouseDispatch { effect: Some(MouseEffect::default()), force_render: changed, ..none }
        },
        MouseAction::FinishAcmeContextMenu { position } => {
            match state.context_menu {
                Some(m) => {
                    state.context_menu = None;
                    let mut menu = m;
                    menu.update_for_mouse_position(position, display_size);
                    let choice = menu.action_for_release(position);
                    let effect = match choice {
                        Some(AcmeContextMenuAction::Look) => MouseEffect::state_changed().suppress_scroll_mode_sync(),
                        _ => MouseEffect::default(),
                    };
                    MouseDispatch {
                        effect: Some(effect),
                        clear_hover: false,
                        force_render: true,
                        menu_choice: match choice {
                            Some(a) => Some((menu, a)),
                            None => None,
                        },
                        hover_notices: None,
                    }
                },
                None => MouseDispatch { effect: Some(MouseEffect::default()), ..none },
            }
        },
        MouseAction::EqualizeAcmePaneRows { .. } | MouseAction::EqualizeAcmeColumns { .. }
        | MouseAction::SwapAcmeColumn { .. } | MouseAction::TogglePaneWrap { .. } => MouseDispatch {
            clear_hover: true,
            ..none
        },
        _ => none,
    }
}

/// Finishing the context menu always closes it; doing nothing changes nothing but the help
/// text, with the default effect; and after any action but motion sent to a terminal, the
/// client's mouse help text is down.
pub proof fn law_dispatch_takes_down_menus_and_help_text(
    action: MouseAction,
    state: ClientMouseState,
    display_size: Size,
    hover_settings: HoverSettings,
    hovered_pane_selectable: Option<bool>,
)
    ensures
        action is FinishAcmeContextMenu ==> dispatched(action, state, display_size, hover_settings, hovered_pane_selectable).0.context_menu is None,
        action is NoAction ==> dispatched(action, state, display_size, hover_settings, hovered_pane_selectable).1.effect == Some(no_effect())
            && dispatched(action, state, display_size, hover_settings, hovered_pane_selectable).0 == (ClientMouseState {
                hover: HoverState { help_text_visible: None, ..state.hover },
                ..state
            }),
        !(action matches MouseAction::SendToTerminal { event, .. } && event.event_type == MouseEventType::Motion)
            ==> dispatched(action, state, display_size, hover_settings, hovered_pane_selectable).0.hover.help_text_visible is None,
{
}

} // verus!
