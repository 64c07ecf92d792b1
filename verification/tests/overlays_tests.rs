use zellij_server::context_menu::{AcmeContextMenuAction, AcmeContextMenuState};
use zellij_server::geom::{PaneId, Position, Size};
use zellij_server::input::InputMode;
use zellij_server::mouse_action::MouseEventContext;
use zellij_server::mouse_event::MouseEvent;
use zellij_server::overlays::{
    schedule_acme_hover_help, update_acme_hover_help, AcmeHoverHelpUpdate, acme_context_menu_character_chunks, acme_hover_help_character_chunks, acme_hover_help_is_visible,
    acme_hover_help_lines, acme_hover_help_position, overlay_colors, position_is_on_display_edge,
    AcmeHoverHelpState, AcmeHoverHelpTarget, OverlayRow, OverlayStyle,
};

fn text(row: &OverlayRow) -> String {
    row.cells.iter().map(|c| c.character).collect()
}

#[test]
fn the_context_menu_draws_a_box_with_its_entries() {
    let mut menu = AcmeContextMenuState::new(PaneId::Terminal(1), Position::new(1, 1), Size { cols: 80, rows: 24 });
    menu.selected_action = Some(AcmeContextMenuAction::Send);
    let rows = acme_context_menu_character_chunks(menu);
    assert_eq!(rows.len(), 7);
    assert_eq!(text(&rows[0]), "┌────────────┐");
    assert_eq!(text(&rows[1]), format!("│ {:<10} │", "put"));
    assert_eq!(text(&rows[2]), format!("│ {:<10} │", "send"));
    assert_eq!(text(&rows[4]), "│ definition │");
    assert_eq!(text(&rows[6]), "└────────────┘");
    assert_eq!((rows[0].x, rows[0].y), (menu.x, menu.y));
    assert_eq!(rows[6].y, menu.y + 6);
    assert_eq!(rows[2].cells[1].style, OverlayStyle::MenuItem { selected: true });
    assert_eq!(rows[1].cells[1].style, OverlayStyle::MenuItem { selected: false });
    assert_eq!(rows[2].cells[0].style, OverlayStyle::MenuBorder);
}

#[test]
fn the_hover_help_sits_below_right_of_the_mouse_when_it_fits() {
    let help = AcmeHoverHelpState::new(AcmeHoverHelpTarget::AcmeTab, Position::new(5, 5), 0);
    let rows = acme_hover_help_character_chunks(help, Size { cols: 80, rows: 24 });
    assert_eq!(rows.len(), 4);
    assert_eq!((rows[0].x, rows[0].y), (6, 6));
    assert_eq!(text(&rows[1]), format!("│ {:<20} │", "left: switch"));
    assert_eq!(text(&rows[2]), "│ drag square: reorder │");
    assert_eq!(rows[3].y, 9);
    assert_eq!(acme_hover_help_position(Position::new(23, 79), Size { cols: 80, rows: 24 }, 10, 4), (69, 19));
    assert_eq!(acme_hover_help_position(Position::new(-3, 2), Size { cols: 5, rows: 3 }, 10, 4), (0, 0));
}

#[test]
fn hover_help_shows_after_the_delay() {
    let help = AcmeHoverHelpState::new(AcmeHoverHelpTarget::AcmeTitle, Position::new(0, 0), 1000);
    assert!(!acme_hover_help_is_visible(help, 2399));
    assert!(acme_hover_help_is_visible(help, 2400));
    assert!(!acme_hover_help_is_visible(help, 10));
    assert_eq!(acme_hover_help_lines(AcmeHoverHelpTarget::PaneFrame { edge: None }), vec!["left drag: move", "right: no-op"]);
}

#[test]
fn display_edges_are_recognised() {
    let size = Size { cols: 10, rows: 5 };
    assert!(position_is_on_display_edge(Position::new(0, 3), size));
    assert!(position_is_on_display_edge(Position::new(2, 9), size));
    assert!(position_is_on_display_edge(Position::new(-1, 3), size));
    assert!(!position_is_on_display_edge(Position::new(2, 3), size));
}

#[test]
fn overlay_styles_have_their_colours() {
    let selected = overlay_colors(OverlayStyle::MenuItem { selected: true });
    assert_eq!(selected.background, (0x1f, 0x5b, 0x2a));
    assert!(selected.bold);
    assert_eq!(overlay_colors(OverlayStyle::HoverHelp).foreground, (0x8a, 0x4f, 0x1d));
}

fn context_on_title() -> MouseEventContext {
    MouseEventContext {
        pane_id_at_position: Some(PaneId::Terminal(1)),
        active_pane_id: Some(PaneId::Terminal(1)),
        floating_visible: false,
        input_mode: InputMode::Normal,
        pane_being_resized: false,
        selecting_with_mouse: false,
        pane_being_moved: false,
        acme_handle_drag: None,
        acme_context_menu: None,
        clicked_pane: None,
        advanced_mouse_actions: true,
        acme_vertical_border_hit: false,
        acme_title_pane_id: Some(PaneId::Terminal(1)),
        acme_title_button_pane_id: None,
        acme_wrap_indicator_pane_id: None,
        pinned_selectable: None,
        pinned_unselectable: None,
        focus_follows_mouse: false,
        mouse_click_through: false,
        mouse_scroll_resize: false,
        passthrough_pane_id: None,
    }
}

#[test]
fn hover_help_follows_buttonless_motion_away_from_the_edges() {
    let size = Size { cols: 80, rows: 24 };
    let ctx = context_on_title();
    let inside = Position::new(5, 5);
    assert_eq!(
        update_acme_hover_help(&MouseEvent::new_buttonless_motion(inside), &ctx, size, false),
        AcmeHoverHelpUpdate::Schedule(AcmeHoverHelpTarget::AcmeTitle)
    );
    assert_eq!(
        update_acme_hover_help(&MouseEvent::new_buttonless_motion(Position::new(0, 5)), &ctx, size, false),
        AcmeHoverHelpUpdate::Hide
    );
    assert_eq!(
        update_acme_hover_help(&MouseEvent::new_left_press_event(inside), &ctx, size, false),
        AcmeHoverHelpUpdate::Hide
    );
    let mut nothing = ctx;
    nothing.acme_title_pane_id = None;
    assert_eq!(
        update_acme_hover_help(&MouseEvent::new_buttonless_motion(inside), &nothing, size, false),
        AcmeHoverHelpUpdate::Hide
    );
}

#[test]
fn rescheduling_hover_help_restarts_the_wait() {
    let at = Position::new(5, 5);
    let (help, was_visible) = schedule_acme_hover_help(None, AcmeHoverHelpTarget::AcmeTab, at, 500);
    assert_eq!(help, AcmeHoverHelpState::new(AcmeHoverHelpTarget::AcmeTab, at, 500));
    assert!(!was_visible);
    let (again, was_visible) = schedule_acme_hover_help(Some(help), AcmeHoverHelpTarget::AcmeTitle, at, 600);
    assert!(!was_visible);
    assert_eq!(again.first_seen_ms, 600);
    let (_, was_visible) = schedule_acme_hover_help(Some(again), AcmeHoverHelpTarget::AcmeTitle, at, 2000);
    assert!(was_visible);
}
