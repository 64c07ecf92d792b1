use zellij_server::context_menu::terminal_pane_id_at_position;
use zellij_server::geom::{PaneId, Position};
use zellij_server::hover::{
    clear_hover_for_client, focus_on_hover, terminal_motion_help, update_hover, HoverSettings, HoverState,
    PluginMotion,
};
use zellij_server::input::{base_mode_for_client, InputMode};
use zellij_server::mouse_action::PaneEdge;
use zellij_server::mouse_execution::{
    end_selection_copies, end_selection_position, focus_after_moving_floating_pane, focus_after_resize,
    focus_pane_and_click_through, focus_pane_effect, takes_acme_resize_snapshot, ClickThrough,
};

fn settings() -> HoverSettings {
    HoverSettings { mouse_hover_effects: true, advanced_mouse_actions: true, mouse_hover_tips: true }
}

fn empty() -> HoverState {
    HoverState { hover_pane_id: None, plugin_hover_pane_id: None, last_pane_id: None, help_text_visible: None }
}

#[test]
fn hovering_a_selectable_pane_highlights_it() {
    let mut state = empty();
    let (notices, effect) =
        update_hover(&mut state, settings(), Some(PaneId::Terminal(1)), Some(Position::new(2, 3)), Some(true));
    assert_eq!(state.hover_pane_id, Some(PaneId::Terminal(1)));
    assert_eq!(state.last_pane_id, Some(PaneId::Terminal(1)));
    assert!(effect.state_changed);
    assert!(effect.leave_clipboard_message);
    assert_eq!(notices.clear_hover_position, None);
    assert_eq!(notices.plugin_motion, None);
}

#[test]
fn moving_to_another_pane_clears_the_old_highlight() {
    let mut state = empty();
    state.hover_pane_id = Some(PaneId::Terminal(1));
    let (notices, _) =
        update_hover(&mut state, settings(), Some(PaneId::Terminal(2)), Some(Position::new(2, 3)), Some(false));
    assert_eq!(state.hover_pane_id, None);
    assert_eq!(notices.clear_hover_position, Some(PaneId::Terminal(1)));
}

#[test]
fn plugin_panes_are_told_when_the_mouse_comes_and_goes() {
    let mut state = empty();
    let at = Position::new(4, 5);
    let (notices, _) = update_hover(&mut state, settings(), Some(PaneId::Plugin(7)), Some(at), Some(true));
    assert_eq!(notices.plugin_motion, Some(PluginMotion { pane_id: PaneId::Plugin(7), position: at }));
    assert_eq!(state.plugin_hover_pane_id, Some(PaneId::Plugin(7)));
    let (notices, effect) = update_hover(&mut state, settings(), None, None, None);
    assert_eq!(notices.plugin_left, Some(PaneId::Plugin(7)));
    assert_eq!(state.plugin_hover_pane_id, None);
    assert_eq!(state.last_pane_id, None);
    assert!(effect.state_changed);
}

#[test]
fn help_text_comes_down_on_any_hover_update() {
    let mut state = empty();
    state.help_text_visible = Some(true);
    let (_, effect) = update_hover(&mut state, settings(), None, None, None);
    assert_eq!(state.help_text_visible, None);
    assert!(effect.state_changed);
}

#[test]
fn clearing_the_hover_tells_both_panes() {
    let mut state = empty();
    state.hover_pane_id = Some(PaneId::Terminal(1));
    state.plugin_hover_pane_id = Some(PaneId::Plugin(2));
    let (cleared, notices) = clear_hover_for_client(&mut state);
    assert!(cleared);
    assert_eq!(notices.clear_hover_position, Some(PaneId::Terminal(1)));
    assert_eq!(notices.plugin_left, Some(PaneId::Plugin(2)));
    assert_eq!(state, empty());
    let (cleared, _) = clear_hover_for_client(&mut state);
    assert!(!cleared);
}

#[test]
fn hover_focuses_only_panes_that_can_take_focus() {
    let p = PaneId::Terminal(3);
    assert!(focus_on_hover(p, true, false, false, false, false, Some(PaneId::Terminal(1))));
    assert!(!focus_on_hover(p, false, false, false, false, false, None));
    assert!(!focus_on_hover(p, true, true, false, false, false, None));
    assert!(focus_on_hover(p, true, true, true, false, false, None));
    assert!(!focus_on_hover(p, true, false, false, true, false, None));
    assert!(!focus_on_hover(p, true, false, false, false, true, None));
    assert!(!focus_on_hover(p, true, false, false, false, false, Some(p)));
}

#[test]
fn entering_a_terminal_shows_the_help_text_once() {
    let mut state = empty();
    let p = PaneId::Terminal(1);
    assert_eq!(terminal_motion_help(&mut state, settings(), p, true), (true, true));
    assert_eq!(state.help_text_visible, Some(true));
    assert_eq!(terminal_motion_help(&mut state, settings(), p, true), (false, false));
    assert_eq!(terminal_motion_help(&mut state, settings(), PaneId::Terminal(2), false), (false, false));
    assert_eq!(state.last_pane_id, Some(p));
}

#[test]
fn leaving_search_returns_to_the_right_mode() {
    assert_eq!(base_mode_for_client(InputMode::Normal, Some(InputMode::Locked), Some((true, true))), InputMode::Normal);
    assert_eq!(base_mode_for_client(InputMode::Normal, Some(InputMode::Locked), Some((true, false))), InputMode::Scroll);
    assert_eq!(base_mode_for_client(InputMode::Normal, Some(InputMode::Locked), Some((false, false))), InputMode::Locked);
    assert_eq!(base_mode_for_client(InputMode::Locked, None, Some((false, false))), InputMode::Locked);
    assert_eq!(base_mode_for_client(InputMode::Locked, Some(InputMode::Normal), None), InputMode::Locked);
}

#[test]
fn only_terminal_content_is_a_target() {
    assert_eq!(terminal_pane_id_at_position(Some(PaneId::Terminal(1)), false), Some(PaneId::Terminal(1)));
    assert_eq!(terminal_pane_id_at_position(Some(PaneId::Terminal(1)), true), None);
    assert_eq!(terminal_pane_id_at_position(Some(PaneId::Plugin(1)), false), None);
    assert_eq!(terminal_pane_id_at_position(None, false), None);
}

#[test]
fn clicking_through_picks_who_gets_the_click() {
    assert_eq!(focus_pane_and_click_through(true, true, false, true), ClickThrough::SelectInUnselectablePane);
    assert_eq!(focus_pane_and_click_through(false, true, false, true), ClickThrough::ForwardToTerminal { send: true });
    assert_eq!(focus_pane_and_click_through(false, true, true, true), ClickThrough::ForwardToTerminal { send: false });
    assert_eq!(
        focus_pane_and_click_through(false, false, false, false),
        ClickThrough::SelectInActivePane { follow_with_mouse: false }
    );
}

#[test]
fn releases_focus_only_other_panes() {
    let a = PaneId::Terminal(1);
    let b = PaneId::Terminal(2);
    assert!(focus_after_resize(true, Some(b), a));
    assert!(!focus_after_resize(true, Some(a), a));
    assert!(!focus_after_resize(false, Some(b), a));
    assert!(!focus_after_resize(true, None, a));
    assert!(focus_after_moving_floating_pane(true, b, a));
    assert!(!focus_after_moving_floating_pane(true, a, a));
    assert!(focus_pane_effect(false, false, a, b).state_changed);
    assert!(focus_pane_effect(true, true, a, a).state_changed);
    assert!(!focus_pane_effect(false, true, a, a).state_changed);
}

#[test]
fn ending_a_selection_stays_inside_the_content() {
    assert_eq!(end_selection_position(Position::new(-3, 100), 80, 24), Position::new(0, 80));
    assert_eq!(end_selection_position(Position::new(30, 5), 80, 24), Position::new(24, 5));
    assert_eq!(end_selection_position(Position::new(3, 5), 80, 24), Position::new(3, 5));
    assert!(end_selection_copies(false, true, true, true));
    assert!(!end_selection_copies(true, true, true, true));
    assert!(!end_selection_copies(false, true, false, true));
    assert!(takes_acme_resize_snapshot(false, PaneEdge::Top));
    assert!(!takes_acme_resize_snapshot(true, PaneEdge::Bottom));
    assert!(!takes_acme_resize_snapshot(false, PaneEdge::Left));
}
