use zellij_server::display_wrap::{DisplayWrapProjection, Grid, Row, Selection, TerminalChar};
use zellij_server::geom::Position;

fn row(text: &str, canonical: bool) -> Row {
    Row {
        columns: text.chars().map(|c| TerminalChar { character: c, width: 1 }).collect(),
        is_canonical: canonical,
    }
}

fn grid(above: Vec<Row>, viewport: Vec<Row>, below: Vec<Row>, height: usize, width: usize) -> Grid {
    Grid {
        lines_above: above,
        viewport,
        lines_below: below,
        height,
        width,
        display_wrap_enabled: false,
        alternate_screen: false,
        selection: Selection { start: Position::new(0, 0), end: Position::new(0, 1), active: false },
        command_output_flash: None,
        is_scrolled: false,
        all_lines_changed: false,
    }
}

fn texts(rows: &[Row]) -> Vec<String> {
    rows.iter().map(|r| r.columns.iter().map(|c| c.character).collect()).collect()
}

#[test]
fn the_alternate_screen_and_wrapping_use_the_ordinary_display() {
    let mut g = grid(vec![], vec![row("ab", true)], vec![], 2, 4);
    assert!(g.uses_unwrapped_display());
    g.display_wrap_enabled = true;
    assert!(!g.uses_unwrapped_display());
    assert!(!g.scroll_unwrapped_lines(1, true));
    g.display_wrap_enabled = false;
    g.alternate_screen = true;
    assert!(!g.uses_unwrapped_display());
}

#[test]
fn continuation_rows_join_their_logical_line() {
    let g = grid(
        vec![row("ab", true), row("cd", false)],
        vec![row("ef", true), row("gh", true)],
        vec![],
        2,
        4,
    );
    let p = DisplayWrapProjection::new(&g);
    assert_eq!(p.lines, vec![(0, 2), (2, 3), (3, 4)]);
    assert_eq!(p.source_origins, vec![(0, 0), (0, 2), (1, 0), (2, 0)]);
    assert_eq!(p.first_visible, 1);
    assert_eq!(p.buffer_to_logical(Position::new(-1, 1)), Position::new(0, 3));
    assert_eq!(p.logical_to_buffer(Position::new(0, 3)), Position::new(-1, 1));
    assert_eq!(p.logical_to_buffer(Position::new(0, 2)), Position::new(-2, 2));
    assert_eq!(p.scrollback_position_and_length(), (0, 1));
}

#[test]
fn scrolling_up_moves_rows_and_keeps_the_selection_on_its_text() {
    let mut g = grid(
        vec![row("ab", true), row("cd", true)],
        vec![row("ef", true), row("gh", true)],
        vec![],
        2,
        4,
    );
    assert!(!g.all_lines_changed);
    assert!(g.scroll_unwrapped_lines(1, true));
    assert!(g.all_lines_changed);
    assert_eq!(texts(&g.lines_above), vec!["ab"]);
    assert_eq!(texts(&g.viewport), vec!["cd", "ef"]);
    assert_eq!(texts(&g.lines_below), vec!["gh"]);
    assert!(g.is_scrolled);
    assert_eq!(g.selection.start, Position::new(1, 0));
    assert_eq!(g.selection.end, Position::new(1, 1));

    assert!(g.scroll_unwrapped_lines(5, false));
    assert_eq!(texts(&g.viewport), vec!["ef", "gh"]);
    assert!(g.lines_below.is_empty());
    assert!(!g.is_scrolled);
    assert_eq!(g.selection.start, Position::new(0, 0));
}

#[test]
fn scrolling_stops_at_the_top() {
    let mut g = grid(vec![row("ab", true)], vec![row("cd", true), row("ef", true)], vec![], 2, 4);
    assert!(g.scroll_unwrapped_lines(10, true));
    assert!(g.lines_above.is_empty());
    assert_eq!(texts(&g.viewport), vec!["ab", "cd"]);
    assert!(g.scroll_unwrapped_lines(1, true));
    assert_eq!(texts(&g.viewport), vec!["ab", "cd"]);
}

#[test]
fn an_active_selection_end_follows_the_mouse_while_scrolling() {
    let mut g = grid(
        vec![row("ab", true), row("cd", true)],
        vec![row("ef", true), row("gh", true)],
        vec![],
        2,
        4,
    );
    g.selection = Selection { start: Position::new(0, 0), end: Position::new(1, 1), active: true };
    assert!(g.scroll_unwrapped_lines(1, true));
    assert_eq!(g.selection.start, Position::new(1, 0));
    assert_eq!(g.selection.end, Position::new(1, 1));
}
