use zellij_server::context_menu::{AcmeContextMenuAction, AcmeContextMenuState};
use zellij_server::geom::{PaneId, Position, Size};
use zellij_server::hover::{HoverSettings, HoverState};
use zellij_server::input::InputMode;
use zellij_server::mouse_action::{
    gather_mouse_event_context, AcmeHandleDragState, ClickedPaneDetails, MouseAction, MouseEventFacts,
};
use zellij_server::mouse_dispatch::{execute_mouse_action, ClientMouseState};
use zellij_server::mouse_event::MouseEvent;
use zellij_server::mouse_handler::MouseEffect;

fn size() -> Size {
    Size { cols: 80, rows: 24 }
}

fn state() -> ClientMouseState {
    ClientMouseState {
        hover: HoverState { hover_pane_id: None, plugin_hover_pane_id: None, last_pane_id: None, help_text_visible: Some(true) },
        context_menu: None,
        acme_handle_drag: None,
    }
}

fn settings() -> HoverSettings {
    HoverSettings { mouse_hover_effects: true, advanced_mouse_actions: true, mouse_hover_tips: true }
}

#[test]
fn doing_nothing_takes_the_help_text_down_and_has_the_default_effect() {
    let mut s = state();
    let d = execute_mouse_action(MouseAction::NoAction, &mut s, size(), settings(), None);
    assert_eq!(d.effect, Some(MouseEffect::default()));
    assert_eq!(s.hover.help_text_visible, None);
    assert!(!d.clear_hover && !d.force_render);
}

#[test]
fn only_terminal_motion_keeps_the_help_text() {
    let mut s = state();
    let d = execute_mouse_action(MouseAction::UpdateHover { pane_id: None, position: None }, &mut s, size(), settings(), None);
    assert_eq!(s.hover.help_text_visible, None);
    let effect = d.effect.unwrap();
    assert!(effect.state_changed && effect.leave_clipboard_message);
    assert!(d.hover_notices.is_some());
    s.hover.help_text_visible = Some(true);
    let motion = MouseEvent::new_buttonless_motion(Position::new(1, 1));
    execute_mouse_action(MouseAction::SendToTerminal { pane_id: PaneId::Terminal(1), event: motion }, &mut s, size(), settings(), None);
    assert_eq!(s.hover.help_text_visible, Some(true));
    let press = MouseEvent::new_left_press_event(Position::new(1, 1));
    execute_mouse_action(MouseAction::SendToTerminal { pane_id: PaneId::Terminal(1), event: press }, &mut s, size(), settings(), None);
    assert_eq!(s.hover.help_text_visible, None);
}

#[test]
fn a_hover_update_highlights_the_selectable_pane_under_the_mouse() {
    let mut s = state();
    let d = execute_mouse_action(
        MouseAction::UpdateHover { pane_id: Some(PaneId::Terminal(4)), position: Some(Position::new(2, 2)) },
        &mut s,
        size(),
        settings(),
        Some(true),
    );
    assert_eq!(s.hover.hover_pane_id, Some(PaneId::Terminal(4)));
    assert_eq!(s.hover.last_pane_id, Some(PaneId::Terminal(4)));
    assert!(d.effect.unwrap().state_changed);
}

#[test]
fn the_context_menu_opens_follows_and_always_closes() {
    let mut s = state();
    let d = execute_mouse_action(
        MouseAction::StartAcmeContextMenu { pane_id: PaneId::Terminal(1), position: Position::new(5, 5) },
        &mut s,
        size(),
        settings(),
        None,
    );
    assert!(d.clear_hover && d.force_render);
    let menu = s.context_menu.unwrap();
    assert_eq!(menu, AcmeContextMenuState::new(PaneId::Terminal(1), Position::new(5, 5), size()));
    let look_line = menu.y as isize + 3;
    let on_look = Position::new(look_line, menu.x + 2);
    let d = execute_mouse_action(MouseAction::FinishAcmeContextMenu { position: on_look }, &mut s, size(), settings(), None);
    assert!(s.context_menu.is_none());
    assert!(d.force_render);
    let (_, chosen) = d.menu_choice.unwrap();
    assert_eq!(chosen, AcmeContextMenuAction::Look);
    let effect = d.effect.unwrap();
    assert!(effect.state_changed && effect.suppress_scroll_mode_sync);
    let d = execute_mouse_action(MouseAction::FinishAcmeContextMenu { position: on_look }, &mut s, size(), settings(), None);
    assert_eq!(d.effect, Some(MouseEffect::default()));
    assert!(d.menu_choice.is_none());
}

#[test]
fn a_title_button_press_becomes_a_drag_after_the_threshold() {
    let mut s = state();
    execute_mouse_action(
        MouseAction::StartAcmeHandleDrag { pane_id: PaneId::Terminal(2), position: Position::new(3, 3) },
        &mut s,
        size(),
        settings(),
        None,
    );
    assert_eq!(
        s.acme_handle_drag,
        Some(AcmeHandleDragState { pane_id: PaneId::Terminal(2), start_position: Position::new(3, 3), is_dragging: false })
    );
    execute_mouse_action(MouseAction::ContinueAcmeHandleDrag { position: Position::new(3, 20) }, &mut s, size(), settings(), None);
    assert!(s.acme_handle_drag.unwrap().is_dragging);
}

#[test]
fn a_visible_floating_layer_blanks_the_acme_fields() {
    let details = ClickedPaneDetails {
        pane_id: PaneId::Terminal(1),
        on_frame: true,
        frame_intercepted: false,
        edge: None,
        is_acme_title: false,
        is_floating: false,
        terminal_wants_mouse: false,
    };
    let mut facts = MouseEventFacts {
        pane_id_at_position: Some(PaneId::Terminal(1)),
        active_pane_id: Some(PaneId::Terminal(1)),
        floating_visible: false,
        client_input_mode: None,
        default_input_mode: InputMode::Locked,
        pane_being_resized: false,
        selecting_with_mouse: false,
        pane_being_moved: false,
        acme_handle_drag: None,
        acme_context_menu: None,
        clicked_pane: Some(details),
        clicked_pane_in_acme_column: true,
        position_on_vertical_frame: true,
        advanced_mouse_actions: true,
        acme_title_pane_id: Some(PaneId::Terminal(1)),
        acme_title_button_pane_id: Some(PaneId::Terminal(1)),
        acme_wrap_indicator_pane_id: Some(PaneId::Terminal(1)),
        pinned_selectable: Some(PaneId::Terminal(3)),
        pinned_unselectable: Some(PaneId::Terminal(3)),
        focus_follows_mouse: false,
        mouse_click_through: false,
        mouse_scroll_resize: false,
        passthrough_pane_id: None,
    };
    let ctx = gather_mouse_event_context(&facts);
    assert_eq!(ctx.input_mode, InputMode::Locked);
    assert!(ctx.acme_vertical_border_hit);
    assert_eq!(ctx.acme_title_pane_id, Some(PaneId::Terminal(1)));
    assert_eq!(ctx.pinned_selectable, Some(PaneId::Terminal(3)));
    facts.floating_visible = true;
    facts.client_input_mode = Some(InputMode::Normal);
    let ctx = gather_mouse_event_context(&facts);
    assert_eq!(ctx.input_mode, InputMode::Normal);
    assert_eq!(ctx.acme_title_pane_id, None);
    assert_eq!(ctx.acme_title_button_pane_id, None);
    assert_eq!(ctx.acme_wrap_indicator_pane_id, None);
    assert_eq!(ctx.pinned_selectable, None);
    assert_eq!(ctx.pinned_unselectable, None);
}
