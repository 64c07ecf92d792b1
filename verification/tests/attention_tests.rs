use zellij_server::attention::{attention_screen, send_attention_output, Screen};
use zellij_server::geom::PaneId;

fn tab_has_pending_attention(screen: &Screen, index: usize) -> bool {
    screen.tab(index).unwrap().has_pending_attention()
}

#[test]
fn explicit_notifications_request_attention_without_visual_or_host_bells() {
    for signal in [
        "\x1b]9;Build finished\x1b\\",
        "\x1b]9;Build finished\x07",
        "\x1b]99;;Build finished\x1b\\",
        "\x1b]777;notify;Build;Finished\x1b\\",
    ] {
        let mut screen = attention_screen();
        send_attention_output(&mut screen, 0, 2, signal);
        let tab = screen.tab(0).unwrap();
        assert!(tab.get_pane_with_id(PaneId::Terminal(2)).unwrap().has_attention());
        assert!(tab.has_pending_attention());
        assert!(tab.panes_with_pending_bell.is_empty());
        assert!(!tab.tab_has_pending_bell);
        assert!(!tab.get_pane_with_id(PaneId::Terminal(2)).unwrap().rang_bell);

        send_attention_output(&mut screen, 0, 2, signal);
        assert!(tab_has_pending_attention(&screen, 0));
        screen.move_focus_down(0);
        screen.acknowledge_focused_pane(1);
        assert!(!tab_has_pending_attention(&screen, 0));
    }
}

#[test]
fn attention_ignores_output_bells_and_notification_control_traffic() {
    let mut screen = attention_screen();
    for signal in [
        "ordinary output",
        "\x07",
        "\x1b]9;4;1;50\x1b\\",
        "\x1b]99;i=build:p=?;\x1b\\",
        "\x1b]99;i=build:p=alive;\x1b\\",
        "\x1b]99;i=build:p=close;\x1b\\",
        "\x1b]99;i=build:d=0;Build\x1b\\",
    ] {
        send_attention_output(&mut screen, 0, 2, signal);
        assert!(!tab_has_pending_attention(&screen, 0), "{signal:?}");
    }
    send_attention_output(&mut screen, 0, 2, "\x1b]99;i=build; finished\x1b\\");
    assert!(tab_has_pending_attention(&screen, 0));
}

#[test]
fn attention_in_a_background_window_clears_when_the_window_is_focused() {
    let mut screen = attention_screen();
    send_attention_output(&mut screen, 0, 1, "\x1b]9;Already looking\x1b\\");
    assert!(!tab_has_pending_attention(&screen, 0));

    screen.host_terminal_focus_changed(1, false);
    send_attention_output(&mut screen, 0, 1, "\x1b]9;Come back\x1b\\");
    assert!(tab_has_pending_attention(&screen, 0));
    screen.acknowledge_focused_pane(1);
    assert!(tab_has_pending_attention(&screen, 0));

    screen.host_terminal_focus_changed(1, true);
    assert!(!tab_has_pending_attention(&screen, 0));
}

#[test]
fn attention_disappears_with_the_pane() {
    let mut screen = attention_screen();
    send_attention_output(&mut screen, 0, 2, "\x1b]9;Finished\x1b\\");
    screen.close_pane(0, PaneId::Terminal(2));
    assert!(!tab_has_pending_attention(&screen, 0));
}

#[test]
fn a_notification_split_across_reads_still_arrives() {
    let mut screen = attention_screen();
    send_attention_output(&mut screen, 0, 2, "\x1b]9;Bui");
    assert!(!tab_has_pending_attention(&screen, 0));
    send_attention_output(&mut screen, 0, 2, "ld done\x1b\\");
    assert!(tab_has_pending_attention(&screen, 0));
}

#[test]
fn a_bare_bell_is_remembered_but_asks_no_attention() {
    let mut screen = attention_screen();
    send_attention_output(&mut screen, 0, 2, "beep\x07");
    let tab = screen.tab(0).unwrap();
    assert!(tab.get_pane_with_id(PaneId::Terminal(2)).unwrap().rang_bell);
    assert!(!tab.has_pending_attention());
}

#[test]
fn closing_the_focused_pane_moves_the_focus_up() {
    let mut screen = attention_screen();
    assert!(screen.move_focus_down(0));
    assert!(!screen.move_focus_down(0));
    screen.close_pane(0, PaneId::Terminal(2));
    assert_eq!(screen.tab(0).unwrap().active_pane_id, Some(PaneId::Terminal(1)));
    assert!(screen.tab(0).unwrap().get_pane_with_id(PaneId::Terminal(2)).is_none());
}
