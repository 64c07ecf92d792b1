use zellij_server::context_menu::{acme_context_menu_effect, non_blank_text, selected_or_word_for_menu, text_with_trailing_enter, AcmeContextMenuAction, AcmeContextMenuEffect, AcmeContextMenuState};
use zellij_server::geom::{PaneId, Position, Size};
use zellij_server::input::{Direction, InputMode, Resize, ResizeStrategy};
use zellij_server::mouse_action::{gather_clicked_pane_details, ClickedPaneDetails, MouseAction, MouseEventContext, PaneEdge};
use zellij_server::mouse_event::MouseEvent;
use zellij_server::mouse_handler::{
    acme_handle_drag_delta, acme_handle_drag_exceeded_threshold, edge_and_delta_to_strategies,
    MouseHandler, PaneResizeState, ResizeStep, WheelScroll,
};
use zellij_server::geom::{Dimension, PaneGeom};

fn mouse_event_context(mouse_scroll_resize: bool) -> MouseEventContext {
    MouseEventContext {
        pane_id_at_position: Some(PaneId::Terminal(1)),
        active_pane_id: Some(PaneId::Terminal(1)),
        floating_visible: false,
        input_mode: InputMode::Normal,
        pane_being_resized: false,
        selecting_with_mouse: false,
        pane_being_moved: false,
        acme_handle_drag: None,
        acme_context_menu: None,
        clicked_pane: None,
        advanced_mouse_actions: true,
        acme_vertical_border_hit: false,
        acme_title_pane_id: None,
        acme_title_button_pane_id: None,
        acme_wrap_indicator_pane_id: None,
        pinned_selectable: None,
        pinned_unselectable: None,
        focus_follows_mouse: false,
        mouse_click_through: false,
        mouse_scroll_resize,
        passthrough_pane_id: None,
    }
}

fn content(terminal_wants_mouse: bool) -> Option<ClickedPaneDetails> {
    Some(ClickedPaneDetails {
        pane_id: PaneId::Terminal(1),
        on_frame: false,
        frame_intercepted: false,
        edge: None,
        is_acme_title: false,
        is_floating: false,
        terminal_wants_mouse,
    })
}

fn title_frame() -> Option<ClickedPaneDetails> {
    Some(ClickedPaneDetails {
        pane_id: PaneId::Terminal(1),
        on_frame: true,
        frame_intercepted: false,
        edge: None,
        is_acme_title: true,
        is_floating: false,
        terminal_wants_mouse: false,
    })
}

#[test]
fn ctrl_left_click_terminal_content_plumbs_text() {
    let mut context = mouse_event_context(false);
    let position = Position::new(1, 1);
    let mut event = MouseEvent::new_left_press_event(position);
    event.ctrl = true;
    context.clicked_pane = content(false);

    assert_eq!(
        MouseHandler::determine_mouse_action(&event, &context),
        MouseAction::PlumbText { pane_id: PaneId::Terminal(1), position }
    );
}

#[test]
fn middle_click_active_pane_content_pastes_when_terminal_does_not_want_mouse() {
    let mut context = mouse_event_context(false);
    let position = Position::new(1, 1);
    context.clicked_pane = content(false);

    assert_eq!(
        MouseHandler::determine_mouse_action(&MouseEvent::new_middle_press_event(position), &context),
        MouseAction::PasteFromHostClipboard { pane_id: PaneId::Terminal(1) }
    );
}

#[test]
fn middle_click_inactive_pane_content_pastes_when_terminal_does_not_want_mouse() {
    let mut context = mouse_event_context(false);
    let position = Position::new(1, 1);
    context.active_pane_id = Some(PaneId::Terminal(2));
    context.clicked_pane = content(false);

    assert_eq!(
        MouseHandler::determine_mouse_action(&MouseEvent::new_middle_press_event(position), &context),
        MouseAction::PasteFromHostClipboard { pane_id: PaneId::Terminal(1) }
    );
}

#[test]
fn middle_click_active_pane_content_forwards_when_terminal_wants_mouse() {
    let mut context = mouse_event_context(false);
    let position = Position::new(1, 1);
    let event = MouseEvent::new_middle_press_event(position);
    context.clicked_pane = content(true);

    assert_eq!(
        MouseHandler::determine_mouse_action(&event, &context),
        MouseAction::SendToTerminal { pane_id: PaneId::Terminal(1), event }
    );
}

#[test]
fn ctrl_left_click_acme_title_button_creates_pane() {
    let mut context = mouse_event_context(false);
    let position = Position::new(1, 1);
    context.acme_title_button_pane_id = Some(PaneId::Terminal(1));

    assert_eq!(
        MouseHandler::determine_mouse_action(&MouseEvent::new_left_press_with_ctrl_event(position), &context),
        MouseAction::NewAcmePane { pane_id: PaneId::Terminal(1) }
    );
}

#[test]
fn ctrl_right_click_acme_title_button_creates_column() {
    let mut context = mouse_event_context(false);
    let position = Position::new(1, 1);
    let mut event = MouseEvent::new_right_press_event(position);
    event.ctrl = true;
    context.acme_title_button_pane_id = Some(PaneId::Terminal(1));

    assert_eq!(
        MouseHandler::determine_mouse_action(&event, &context),
        MouseAction::NewAcmeColumn { pane_id: PaneId::Terminal(1) }
    );
}

#[test]
fn alt_left_click_acme_title_button_swaps_column_left() {
    let mut context = mouse_event_context(false);
    let position = Position::new(1, 1);
    context.acme_title_button_pane_id = Some(PaneId::Terminal(1));

    assert_eq!(
        MouseHandler::determine_mouse_action(&MouseEvent::new_left_press_with_alt_event(position), &context),
        MouseAction::SwapAcmeColumn { pane_id: PaneId::Terminal(1), direction: Direction::Left }
    );
}

#[test]
fn alt_right_click_acme_title_button_swaps_column_right() {
    let mut context = mouse_event_context(false);
    let position = Position::new(1, 1);
    context.acme_title_button_pane_id = Some(PaneId::Terminal(1));

    assert_eq!(
        MouseHandler::determine_mouse_action(&MouseEvent::new_right_press_with_alt_event(position), &context),
        MouseAction::SwapAcmeColumn { pane_id: PaneId::Terminal(1), direction: Direction::Right }
    );
}

#[test]
fn alt_right_release_acme_title_button_is_ignored() {
    let mut context = mouse_event_context(false);
    let position = Position::new(1, 1);
    let mut event = MouseEvent::new_right_release_event(position);
    event.alt = true;
    context.acme_title_button_pane_id = Some(PaneId::Terminal(1));

    assert_eq!(MouseHandler::determine_mouse_action(&event, &context), MouseAction::NoAction);
}

#[test]
fn context_menu_send_bytes_end_with_enter() {
    assert_eq!(text_with_trailing_enter("echo hi".to_owned()), b"echo hi\r");
    assert_eq!(text_with_trailing_enter("echo hi\n".to_owned()), b"echo hi\n");
    assert_eq!(text_with_trailing_enter("echo hi\r".to_owned()), b"echo hi\r");
}

#[test]
fn search_mode_mouse_buttons_navigate_matches_on_terminal_content() {
    let mut context = mouse_event_context(false);
    context.input_mode = InputMode::Search;
    context.clicked_pane = content(false);
    let position = Position::new(1, 1);

    assert_eq!(
        MouseHandler::determine_mouse_action(&MouseEvent::new_left_press_event(position), &context),
        MouseAction::SearchDown
    );
    assert_eq!(
        MouseHandler::determine_mouse_action(&MouseEvent::new_right_press_event(position), &context),
        MouseAction::SearchUp
    );
    assert_eq!(
        MouseHandler::determine_mouse_action(&MouseEvent::new_middle_press_event(position), &context),
        MouseAction::CancelSearch
    );
}

#[test]
fn plain_left_click_on_acme_wrap_indicator_toggles_wrap() {
    let mut context = mouse_event_context(false);
    let position = Position::new(1, 1);
    context.clicked_pane = title_frame();
    context.acme_wrap_indicator_pane_id = Some(PaneId::Terminal(1));

    assert_eq!(
        MouseHandler::determine_mouse_action(&MouseEvent::new_left_press_event(position), &context),
        MouseAction::TogglePaneWrap { pane_id: PaneId::Terminal(1) }
    );
}

#[test]
fn plain_right_click_on_acme_wrap_indicator_is_ignored() {
    let mut context = mouse_event_context(false);
    let position = Position::new(1, 1);
    context.clicked_pane = title_frame();
    context.acme_wrap_indicator_pane_id = Some(PaneId::Terminal(1));

    assert_eq!(
        MouseHandler::determine_mouse_action(&MouseEvent::new_right_press_event(position), &context),
        MouseAction::NoAction
    );
}

#[test]
fn plain_right_click_on_pane_decoration_does_not_open_context_menu() {
    let mut context = mouse_event_context(false);
    let position = Position::new(1, 1);
    let event = MouseEvent::new_right_press_event(position);
    context.clicked_pane = title_frame();
    context.acme_title_button_pane_id = Some(PaneId::Terminal(1));

    assert_eq!(MouseHandler::determine_mouse_action(&event, &context), MouseAction::NoAction);
}

#[test]
fn right_click_active_mouse_pane_opens_context_menu() {
    let mut context = mouse_event_context(false);
    let position = Position::new(1, 1);
    let event = MouseEvent::new_right_press_event(position);
    context.clicked_pane = content(true);

    assert_eq!(
        MouseHandler::determine_mouse_action(&event, &context),
        MouseAction::StartAcmeContextMenu { pane_id: PaneId::Terminal(1), position }
    );
}

#[test]
fn context_menu_updates_selection_without_moving_inside_box() {
    let size = Size { cols: 80, rows: 24 };
    let mut menu = AcmeContextMenuState::new(PaneId::Terminal(1), Position::new(1, 1), size);
    let original_position = (menu.x, menu.y);

    menu.update_for_mouse_position(Position::new(3, 3), size);
    assert_eq!((menu.x, menu.y), original_position);
    assert_eq!(menu.selected_action, Some(AcmeContextMenuAction::Send));

    menu.update_for_mouse_position(Position::new(4, 3), size);
    assert_eq!((menu.x, menu.y), original_position);
    assert_eq!(menu.selected_action, Some(AcmeContextMenuAction::Look));

    menu.update_for_mouse_position(Position::new(5, 3), size);
    assert_eq!((menu.x, menu.y), original_position);
    assert_eq!(menu.selected_action, Some(AcmeContextMenuAction::GoToDefinition));
    assert_eq!(menu.drag_offset, None);

    menu.update_for_mouse_position(Position::new(6, 3), size);
    assert_eq!((menu.x, menu.y), original_position);
    assert_eq!(menu.selected_action, Some(AcmeContextMenuAction::Cancel));
    assert_eq!(menu.drag_offset, None);
}

#[test]
fn context_menu_definition_does_not_drag_menu_or_persist_selection() {
    let size = Size { cols: 80, rows: 24 };
    let mut menu = AcmeContextMenuState::new(PaneId::Terminal(1), Position::new(1, 1), size);
    let original_position = (menu.x, menu.y);

    menu.update_for_mouse_position(Position::new(5, 3), size);
    assert_eq!(menu.selected_action, Some(AcmeContextMenuAction::GoToDefinition));
    assert_eq!(menu.drag_offset, None);

    menu.update_for_mouse_position(Position::new(10, 20), size);
    assert_eq!((menu.x, menu.y), original_position);
    assert_eq!(menu.selected_action, None);
    assert_eq!(menu.action_for_release(Position::new(10, 20)), None);
}

#[test]
fn context_menu_moves_after_selected_item_leaves_box() {
    let size = Size { cols: 80, rows: 24 };
    let mut menu = AcmeContextMenuState::new(PaneId::Terminal(1), Position::new(1, 1), size);
    menu.update_for_mouse_position(Position::new(3, 3), size);

    menu.update_for_mouse_position(Position::new(10, 20), size);

    assert_eq!((menu.x, menu.y), (19, 8));
    assert_eq!(menu.selected_action, Some(AcmeContextMenuAction::Send));
}

#[test]
fn active_context_menu_tracks_motion_and_finishes_on_release() {
    let mut context = mouse_event_context(false);
    let anchor = Position::new(1, 1);
    context.acme_context_menu = Some(AcmeContextMenuState::new(
        PaneId::Terminal(1),
        anchor,
        Size { cols: 80, rows: 24 },
    ));
    let release_position = Position::new(1, 2);

    assert_eq!(
        MouseHandler::determine_mouse_action(&MouseEvent::new_right_motion_event(release_position), &context),
        MouseAction::UpdateAcmeContextMenu { position: release_position }
    );
    assert_eq!(
        MouseHandler::determine_mouse_action(&MouseEvent::new_right_release_event(release_position), &context),
        MouseAction::FinishAcmeContextMenu { position: release_position }
    );
}

#[test]
fn disabled_ctrl_scroll_does_not_fall_through_to_regular_scrolling() {
    let context = mouse_event_context(false);
    let position = Position::new(1, 1);
    let events = [
        MouseEvent::new_ctrl_scroll_up_event(position),
        MouseEvent::new_ctrl_scroll_down_event(position),
    ];

    for event in events {
        assert_eq!(MouseHandler::determine_mouse_action(&event, &context), MouseAction::NoAction);
    }
}

#[test]
fn enabled_ctrl_scroll_resizes_the_pane_under_the_mouse() {
    let context = mouse_event_context(true);
    let position = Position::new(1, 1);
    assert_eq!(
        MouseHandler::determine_mouse_action(&MouseEvent::new_ctrl_scroll_up_event(position), &context),
        MouseAction::ResizeScrollUp { pane_id: PaneId::Terminal(1) }
    );
    assert_eq!(
        MouseHandler::determine_mouse_action(&MouseEvent::new_ctrl_scroll_down_event(position), &context),
        MouseAction::ResizeScrollDown { pane_id: PaneId::Terminal(1) }
    );
}

#[test]
fn an_open_context_menu_takes_presses_too() {
    let mut context = mouse_event_context(false);
    context.acme_context_menu = Some(AcmeContextMenuState::new(
        PaneId::Terminal(1),
        Position::new(1, 1),
        Size { cols: 80, rows: 24 },
    ));
    context.clicked_pane = content(true);
    assert_eq!(
        MouseHandler::determine_mouse_action(&MouseEvent::new_left_press_event(Position::new(9, 9)), &context),
        MouseAction::NoAction
    );
}

#[test]
fn clicks_reach_only_the_active_terminal() {
    let mut context = mouse_event_context(false);
    context.active_pane_id = Some(PaneId::Terminal(2));
    context.clicked_pane = content(true);
    let position = Position::new(1, 1);
    assert_eq!(
        MouseHandler::determine_mouse_action(&MouseEvent::new_left_press_event(position), &context),
        MouseAction::FocusPane { pane_id: PaneId::Terminal(1), position }
    );
    assert_eq!(
        MouseHandler::determine_mouse_action(&MouseEvent::new_left_motion_event(position), &context),
        MouseAction::NoAction
    );
}

#[test]
fn dragging_an_edge_asks_for_the_right_strategies() {
    let up = edge_and_delta_to_strategies(PaneEdge::TopLeft, 3, -2);
    assert_eq!(
        up,
        vec![
            ResizeStrategy { resize: Resize::Increase, direction: Some(Direction::Up), invert_on_boundaries: false },
            ResizeStrategy { resize: Resize::Decrease, direction: Some(Direction::Left), invert_on_boundaries: false },
        ]
    );
    assert_eq!(
        edge_and_delta_to_strategies(PaneEdge::Right, 4, 0),
        vec![ResizeStrategy { resize: Resize::Increase, direction: Some(Direction::Right), invert_on_boundaries: false }]
    );
}

#[test]
fn a_title_button_press_becomes_a_drag_past_the_threshold() {
    let start = Position::new(5, 5);
    assert_eq!(acme_handle_drag_delta(start, Position::new(3, 9)), (2, 4));
    assert!(!acme_handle_drag_exceeded_threshold(start, Position::new(6, 4)));
    assert!(acme_handle_drag_exceeded_threshold(start, Position::new(7, 5)));
}

#[test]
fn resize_steps_measure_from_the_start() {
    let geom = PaneGeom { x: 0, y: 0, cols: Dimension::fixed(10), rows: Dimension::fixed(10), stacked: None };
    let mut state = Some(PaneResizeState {
        pane_id: PaneId::Terminal(1),
        edge: PaneEdge::Bottom,
        start_position: Position::new(4, 4),
        start_geom: geom,
        is_floating: false,
        acme_resize_snapshot: None,
    });
    assert!(matches!(MouseHandler::pane_resize_step(&state, Position::new(4, 4)), ResizeStep::Unmoved));
    match MouseHandler::pane_resize_step(&state, Position::new(7, 2)) {
        ResizeStep::Tiled { strategies, columns, rows } => {
            assert_eq!(columns, 2);
            assert_eq!(rows, 3);
            assert_eq!(strategies.len(), 1);
        },
        other => panic!("unexpected step {other:?}"),
    }
    MouseHandler::advance_resize_start(&mut state, Position::new(7, 2));
    assert_eq!(state.as_ref().unwrap().start_position, Position::new(7, 2));
    assert!(matches!(MouseHandler::pane_resize_step(&None, Position::new(1, 1)), ResizeStep::NotResizing));
}

#[test]
fn blank_text_is_not_acted_on() {
    assert_eq!(non_blank_text(String::new()), None);
    assert_eq!(non_blank_text(" \t\r\n".to_string()), None);
    assert_eq!(non_blank_text("\u{a0}\u{3000}".to_string()), None);
    assert_eq!(non_blank_text(" echo hi ".to_string()), Some(" echo hi ".to_string()));
}

#[test]
fn the_menu_acts_on_the_selection_before_the_word() {
    let some = |s: &str| Some(s.to_string());
    assert_eq!(selected_or_word_for_menu(some("sel"), some("word")), some("sel"));
    assert_eq!(selected_or_word_for_menu(some("  "), some("word")), some("word"));
    assert_eq!(selected_or_word_for_menu(None, some("word")), some("word"));
    assert_eq!(selected_or_word_for_menu(None, some(" \n")), None);
    assert_eq!(selected_or_word_for_menu(None, None), None);
}

#[test]
fn each_menu_entry_has_its_effect() {
    let menu = AcmeContextMenuState::new(PaneId::Terminal(1), Position::new(3, 4), Size { cols: 80, rows: 24 });
    let release = Position::new(10, 20);
    let target = Some(PaneId::Terminal(2));
    let text = || Some("echo hi".to_string());
    match acme_context_menu_effect(menu, AcmeContextMenuAction::Put, release, target, text()) {
        AcmeContextMenuEffect::Paste { pane_id, bytes } => {
            assert_eq!(pane_id, PaneId::Terminal(2));
            assert_eq!(bytes, b"echo hi".to_vec());
        },
        other => panic!("unexpected {other:?}"),
    }
    match acme_context_menu_effect(menu, AcmeContextMenuAction::Send, release, target, text()) {
        AcmeContextMenuEffect::Send { pane_id, bytes } => {
            assert_eq!(pane_id, PaneId::Terminal(2));
            assert_eq!(bytes, b"echo hi\r".to_vec());
        },
        other => panic!("unexpected {other:?}"),
    }
    match acme_context_menu_effect(menu, AcmeContextMenuAction::Look, release, target, text()) {
        AcmeContextMenuEffect::Look { pane_id, text, anchor } => {
            assert_eq!(pane_id, PaneId::Terminal(2));
            assert_eq!(text, "echo hi");
            assert_eq!(anchor, release);
        },
        other => panic!("unexpected {other:?}"),
    }
    match acme_context_menu_effect(menu, AcmeContextMenuAction::Look, release, Some(PaneId::Terminal(1)), text()) {
        AcmeContextMenuEffect::Look { anchor, .. } => assert_eq!(anchor, Position::new(3, 4)),
        other => panic!("unexpected {other:?}"),
    }
    match acme_context_menu_effect(menu, AcmeContextMenuAction::GoToDefinition, release, None, text()) {
        AcmeContextMenuEffect::GoToDefinition { pane_id, text } => {
            assert_eq!(pane_id, PaneId::Terminal(1));
            assert_eq!(text, "echo hi");
        },
        other => panic!("unexpected {other:?}"),
    }
    assert!(matches!(
        acme_context_menu_effect(menu, AcmeContextMenuAction::Put, release, None, text()),
        AcmeContextMenuEffect::Nothing
    ));
    assert!(matches!(
        acme_context_menu_effect(menu, AcmeContextMenuAction::Send, release, target, None),
        AcmeContextMenuEffect::Nothing
    ));
    assert!(matches!(
        acme_context_menu_effect(menu, AcmeContextMenuAction::Cancel, release, target, text()),
        AcmeContextMenuEffect::Nothing
    ));
}

#[test]
fn the_wheel_reaches_the_pane_in_the_way_it_understands() {
    match MouseHandler::wheel_scroll(true, 3, Some(b"\x1b[<64;1;1M".to_vec()), true) {
        WheelScroll::Report(bytes) => assert_eq!(bytes, b"\x1b[<64;1;1M".to_vec()),
        other => panic!("unexpected {other:?}"),
    }
    match MouseHandler::wheel_scroll(true, 3, None, true) {
        WheelScroll::CursorKeys(keys) => assert_eq!(keys, vec![b"\x1b[A".to_vec(); 3]),
        other => panic!("unexpected {other:?}"),
    }
    match MouseHandler::wheel_scroll(false, 2, None, true) {
        WheelScroll::CursorKeys(keys) => assert_eq!(keys, vec![b"\x1b[B".to_vec(); 2]),
        other => panic!("unexpected {other:?}"),
    }
    match MouseHandler::wheel_scroll(false, 2, None, false) {
        WheelScroll::Scroll(lines) => assert_eq!(lines, 2),
        other => panic!("unexpected {other:?}"),
    }
}

#[test]
fn an_acme_title_hit_counts_as_a_frame_hit_that_nobody_else_takes() {
    let p = PaneId::Terminal(4);
    let on_title = gather_clicked_pane_details(
        p, false, false, false, true, Some(PaneEdge::Left), Some(p), true, Some(p), Some(PaneEdge::Top),
    );
    assert_eq!(
        on_title,
        ClickedPaneDetails {
            pane_id: p,
            on_frame: true,
            frame_intercepted: false,
            edge: Some(PaneEdge::Top),
            is_acme_title: true,
            is_floating: false,
            terminal_wants_mouse: false,
        }
    );
    let on_frame = gather_clicked_pane_details(
        p, false, false, true, true, Some(PaneEdge::Left), Some(p), true, None, None,
    );
    assert!(on_frame.on_frame && on_frame.frame_intercepted && on_frame.terminal_wants_mouse);
    assert_eq!(on_frame.edge, Some(PaneEdge::Left));
    let hidden = gather_clicked_pane_details(
        p, false, true, true, true, Some(PaneEdge::Left), Some(PaneId::Terminal(1)), true, None, None,
    );
    assert!(!hidden.on_frame && !hidden.frame_intercepted && !hidden.terminal_wants_mouse);
    assert_eq!(hidden.edge, None);
    let floating = gather_clicked_pane_details(
        p, true, false, false, false, None, None, false, Some(p), Some(PaneEdge::Top),
    );
    assert!(!floating.is_acme_title && !floating.on_frame);
}

#[test]
fn exactly_the_unicode_white_space_characters_are_blank() {
    for c in (0u32..=0x10ffff).filter_map(char::from_u32) {
        assert_eq!(non_blank_text(c.to_string()).is_none(), c.is_whitespace(), "{:#x}", c as u32);
    }
}
