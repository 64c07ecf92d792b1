use zellij_server::display_wrap::{DisplayWrapProjection, Grid, Row, Selection, TerminalChar};
use zellij_server::geom::Position;
use zellij_server::display_wrap_select::{ClickKind, SelectionExtend, SelectionStart};

fn cell_width(c: char) -> usize {
    if c == '界' {
        2
    } else {
        1
    }
}

/// The rows a logical line takes when wrapped at `width` cells: a character that does not fit
/// starts the next row; an empty line is one empty row.
fn wrapped_rows(line: &str, width: usize) -> Vec<Row> {
    let mut rows = vec![Row { columns: vec![], is_canonical: true }];
    let mut used = 0;
    for c in line.chars() {
        let w = cell_width(c);
        if used + w > width {
            rows.push(Row { columns: vec![], is_canonical: false });
            used = 0;
        }
        rows.last_mut().unwrap().columns.push(TerminalChar { character: c, width: w });
        used += w;
    }
    rows
}

/// A grid showing `lines` wrapped at `width`, its viewport the last `height` rows.
fn grid(height: usize, width: usize, lines: &[String]) -> Grid {
    let mut rows: Vec<Row> = lines.iter().flat_map(|l| wrapped_rows(l, width)).collect();
    let split = rows.len().saturating_sub(height);
    let viewport = rows.split_off(split);
    Grid {
        lines_above: rows,
        viewport,
        lines_below: vec![],
        height,
        width,
        display_wrap_enabled: false,
        alternate_screen: false,
        selection: Selection { start: Position::new(0, 0), end: Position::new(0, 0), active: false },
        command_output_flash: None,
        is_scrolled: false,
        all_lines_changed: false,
    }
}

fn long_lines(count: usize) -> Vec<String> {
    (0..count).map(|i| format!("{i:02}-abcdefghijklmno")).collect()
}

/// Selects from one display position to another, as a drag does.
fn select(grid: &mut Grid, start: Position, end: Position) {
    let p = DisplayWrapProjection::new(grid);
    grid.selection = Selection {
        start: p.display_to_buffer(start),
        end: p.display_to_buffer(end),
        active: false,
    };
}

fn selected(grid: &Grid) -> Option<String> {
    grid.display_wrap_projection().selected_text(grid, &grid.selection)
}

fn text(row: &Row) -> String {
    row.columns.iter().map(|c| c.character).collect()
}

/// The logical lines shown, each as far as the display's width lets it show.
fn shown(grid: &Grid) -> Vec<String> {
    let p = grid.display_wrap_projection();
    p.visible_rows(grid)
        .iter()
        .map(|row| {
            let mut used = 0;
            row.columns
                .iter()
                .take_while(|c| {
                    used += c.width;
                    used <= grid.width
                })
                .map(|c| c.character)
                .collect()
        })
        .collect()
}

fn clipped(lines: &[String]) -> Vec<String> {
    lines.iter().map(|line| line[..8].to_owned()).collect()
}

fn position_and_length(grid: &Grid) -> (usize, usize) {
    grid.display_wrap_projection().scrollback_position_and_length()
}

#[test]
fn drag_copies_hidden_tails_but_preserves_partial_endpoints() {
    let lines = long_lines(8);
    for (start, end) in [
        (Position::new(0, 3), Position::new(2, 5)),
        (Position::new(2, 5), Position::new(0, 3)),
    ] {
        let mut g = grid(4, 8, &lines);
        select(&mut g, start, end);
        assert_eq!(
            selected(&g).unwrap(),
            format!("{}\n{}\n{}", &lines[4][3..], lines[5], &lines[6][..5])
        );
    }
}

#[test]
fn same_line_drag_only_copies_the_selected_columns() {
    let lines = long_lines(8);
    let mut g = grid(4, 8, &lines);
    select(&mut g, Position::new(0, 3), Position::new(0, 6));
    assert!(g.selection.start.line < 0, "displayed text comes from scrollback");
    assert_eq!(selected(&g).unwrap(), "abc");
}

#[test]
fn selection_remains_anchored_after_scrolling_in_both_directions() {
    let lines = long_lines(9);
    let mut g = grid(4, 8, &lines);
    select(&mut g, Position::new(0, 3), Position::new(2, 5));
    let before = selected(&g);
    assert!(before.is_some());
    assert!(g.scroll_unwrapped_lines(2, true));
    assert_eq!(selected(&g), before);
    assert!(g.scroll_unwrapped_lines(1, false));
    assert_eq!(selected(&g), before);
    assert!(g.scroll_unwrapped_lines(100, false));
    assert_eq!(selected(&g), before);
    assert!(!g.is_scrolled);
}

#[test]
fn line_selection_includes_hidden_text() {
    let lines: Vec<String> =
        ["abcdefghijklmnop", "qrstuvwxyzabcdef", "last"].iter().map(|s| s.to_string()).collect();
    let mut g = grid(3, 8, &lines);
    let p = g.display_wrap_projection();
    let (start, end) = p.line_at(Position::new(0, 3)).unwrap();
    assert_eq!(start, Position::new(-2, 0));
    assert_eq!(end, Position::new(-1, 8));
    g.selection = Selection { start, end, active: false };
    assert_eq!(selected(&g).unwrap(), "abcdefghijklmnop");
}

#[test]
fn no_line_shows_above_the_first_or_below_the_last() {
    let lines: Vec<String> = ["ab", "cd"].iter().map(|s| s.to_string()).collect();
    let g = grid(3, 8, &lines);
    let p = g.display_wrap_projection();
    assert_eq!(p.line_at(Position::new(-1, 0)), None);
    assert_eq!(p.line_at(Position::new(2, 0)), None);
    assert_eq!(p.line_at(Position::new(1, 5)), Some((Position::new(1, 0), Position::new(1, 2))));
}

#[test]
fn wide_characters_use_cell_columns_and_scroll_at_reflow_boundaries() {
    let lines: Vec<String> = (0..8).map(|i| format!("{i}界界界界界界界界")).collect();
    let mut g = grid(4, 8, &lines);
    select(&mut g, Position::new(0, 3), Position::new(2, 3));
    assert_eq!(selected(&g).unwrap(), format!("{}\n{}\n6界", "界".repeat(7), lines[5]));
    assert!(g.scroll_unwrapped_lines(1, true));
    let rendered = shown(&g);
    assert!(rendered[0].starts_with('3'));
    assert!(rendered[3].starts_with('6'));
    assert!(g.scroll_unwrapped_lines(1, false));
    assert!(!g.is_scrolled);
}

#[test]
fn empty_rows_and_newline_endpoints_preserve_normal_selection() {
    let lines: Vec<String> =
        ["abcdefghijklmnop", "", "qrstuvwxyz", "last"].iter().map(|s| s.to_string()).collect();
    let mut g = grid(4, 8, &lines);
    select(&mut g, Position::new(0, 2), Position::new(2, 0));
    assert_eq!(selected(&g).unwrap(), "cdefghijklmnop\n");
}

#[test]
fn an_empty_selection_selects_nothing() {
    let lines = long_lines(3);
    let mut g = grid(4, 8, &lines);
    select(&mut g, Position::new(1, 2), Position::new(1, 2));
    assert_eq!(selected(&g), None);
}

#[test]
fn trailing_whitespace_of_each_line_is_dropped() {
    let lines: Vec<String> = ["ab  ", "  cd\t", "ef"].iter().map(|s| s.to_string()).collect();
    let mut g = grid(3, 8, &lines);
    select(&mut g, Position::new(0, 0), Position::new(1, 5));
    assert_eq!(selected(&g).unwrap(), "ab\n  cd");
}

#[test]
fn visible_rows_join_the_rows_of_each_shown_line() {
    let lines = long_lines(8);
    let g = grid(4, 8, &lines);
    let p = g.display_wrap_projection();
    let rows = p.visible_rows(&g);
    let shown: Vec<String> = rows.iter().map(text).collect();
    assert_eq!(shown, lines[4..].to_vec());
    assert!(rows.iter().all(|r| r.is_canonical));
}

#[test]
fn selection_shows_where_its_text_is_displayed() {
    let lines = long_lines(8);
    let mut g = grid(4, 8, &lines);
    select(&mut g, Position::new(0, 3), Position::new(2, 5));
    let p = g.display_wrap_projection();
    let shown = p.selection_to_display(g.selection);
    assert_eq!(shown.start, Position::new(0, 3));
    assert_eq!(shown.end, Position::new(2, 5));
}

#[test]
fn scrolling_counts_logical_lines_and_stops_at_both_ends() {
    let lines = long_lines(8);
    let mut g = grid(4, 8, &lines);
    let live = shown(&g);
    assert_eq!(live, clipped(&lines[4..]));
    assert_eq!(position_and_length(&g), (0, 4));

    assert!(g.scroll_unwrapped_lines(1, true));
    assert_eq!(shown(&g), clipped(&lines[3..7]));
    assert_eq!(position_and_length(&g), (1, 4));
    assert!(g.is_scrolled);

    assert!(g.scroll_unwrapped_lines(100, true));
    assert_eq!(shown(&g), clipped(&lines[..4]));
    assert_eq!(position_and_length(&g), (4, 4));
    for _ in 0..5 {
        assert!(g.scroll_unwrapped_lines(1, true));
        assert_eq!(shown(&g), clipped(&lines[..4]));
    }

    assert!(g.scroll_unwrapped_lines(1, false));
    assert_eq!(shown(&g), clipped(&lines[1..5]));
    assert!(g.scroll_unwrapped_lines(100, false));
    assert_eq!(shown(&g), live);
    assert_eq!(position_and_length(&g), (0, 4));
    assert!(!g.is_scrolled);
    assert!(g.lines_below.is_empty());
    assert!(g.scroll_unwrapped_lines(1, false));
    assert_eq!(shown(&g), live);
}

#[test]
fn no_scroll_when_all_logical_lines_fit_even_if_wrapped_scrollback_exists() {
    let lines = long_lines(3);
    let mut g = grid(3, 8, &lines);
    assert!(!g.lines_above.is_empty());
    let before = shown(&g);
    assert!(g.scroll_unwrapped_lines(100, true));
    assert_eq!(shown(&g), before);
    assert_eq!(position_and_length(&g), (0, 0));
    assert!(!g.is_scrolled);
}

#[test]
fn hidden_continuations_below_the_wrapped_viewport_are_copied() {
    let lines = long_lines(8);
    let mut g = grid(4, 8, &lines);
    // Stopped in the middle of a logical line: its last row waits below the viewport.
    let last = g.viewport.pop().unwrap();
    g.lines_below.push(last);
    let top = g.lines_above.pop().unwrap();
    g.viewport.insert(0, top);
    g.is_scrolled = true;
    assert!(!g.lines_below[0].is_canonical);
    let p = g.display_wrap_projection();
    let (start, end) = p.line_at(Position::new(3, 1)).unwrap();
    g.selection = Selection { start, end, active: false };
    assert_eq!(selected(&g).unwrap(), lines[7]);
    assert!(g.scroll_unwrapped_lines(1, false));
    assert!(!g.is_scrolled);
    assert!(g.lines_below.is_empty());
}

#[test]
fn active_drag_scrolls_by_logical_lines_and_keeps_mouse_endpoint() {
    let lines = long_lines(8);
    let mut g = grid(4, 8, &lines);
    let p = g.display_wrap_projection();
    let start = p.display_to_buffer(Position::new(1, 3));
    g.selection = Selection { start, end: start, active: true };
    g.selection.end = p.display_to_buffer(Position::new(0, 2));
    assert!(g.scroll_unwrapped_lines(1, true));
    let p = g.display_wrap_projection();
    assert_eq!(p.buffer_to_display(g.selection.end), Position::new(0, 2));
    g.selection.end = p.display_to_buffer(Position::new(0, 2));
    g.selection.active = false;
    assert_eq!(
        selected(&g).unwrap(),
        format!("{}\n{}\n{}", &lines[3][2..], lines[4], &lines[5][..3])
    );
}

#[test]
fn alternate_screen_ignores_display_wrap_setting() {
    let mut g = grid(3, 8, &["before".to_string()]);
    g.alternate_screen = true;
    assert!(!g.uses_unwrapped_display());
    let before_viewport = g.viewport.len();
    assert!(!g.scroll_unwrapped_lines(5, true));
    assert_eq!(g.viewport.len(), before_viewport);
    assert!(!g.all_lines_changed);
    assert_eq!(g.display_position_to_buffer(Position::new(1, 3)), Position::new(1, 3));
}

#[test]
fn word_and_line_selection_include_hidden_text() {
    let lines: Vec<String> =
        ["abcdefghijklmnop", "qrstuvwxyzabcdef", "last"].iter().map(|s| s.to_string()).collect();
    for click in [ClickKind::Double, ClickKind::Triple] {
        let mut g = grid(3, 8, &lines);
        let p = g.display_wrap_projection();
        // The word around column 3 of the logical line is the whole line.
        let start = p.unwrapped_selection_start(click, Position::new(0, 3), Some((0, 16)), None);
        match start {
            SelectionStart::Bounds(s, e) => g.selection = Selection { start: s, end: e, active: false },
            other => panic!("unexpected {:?}", other),
        }
        assert_eq!(selected(&g).unwrap(), "abcdefghijklmnop");
    }
}

#[test]
fn triple_click_drag_selects_complete_logical_lines() {
    let lines = long_lines(6);
    let mut g = grid(3, 8, &lines);
    let p = g.display_wrap_projection();
    let (start, _) = match p.unwrapped_selection_start(ClickKind::Triple, Position::new(0, 3), None, None) {
        SelectionStart::Bounds(s, e) => (s, e),
        other => panic!("unexpected {:?}", other),
    };
    let end = match p.unwrapped_selection_extend(ClickKind::Triple, Position::new(2, 4), None) {
        SelectionExtend::AddWord(_, e) => e,
        other => panic!("unexpected {:?}", other),
    };
    g.selection = Selection { start, end, active: false };
    assert_eq!(selected(&g).unwrap(), lines[3..].join("\n"));
}

#[test]
fn a_single_click_starts_where_the_mouse_is_and_a_drag_moves_the_end() {
    let lines = long_lines(6);
    let g = grid(3, 8, &lines);
    let p = g.display_wrap_projection();
    assert_eq!(
        p.unwrapped_selection_start(ClickKind::Single, Position::new(1, 2), None, None),
        SelectionStart::StartAt(p.display_to_buffer(Position::new(1, 2)))
    );
    assert_eq!(
        p.unwrapped_selection_extend(ClickKind::Single, Position::new(2, 5), None),
        SelectionExtend::To(p.display_to_buffer(Position::new(2, 5)))
    );
    assert_eq!(p.unwrapped_selection_start(ClickKind::Double, Position::new(1, 2), None, None), SelectionStart::Unchanged);
    assert_eq!(p.unwrapped_selection_start(ClickKind::Triple, Position::new(9, 2), None, None), SelectionStart::Unchanged);
}

#[test]
fn scrolling_up_then_down_by_the_same_lines_comes_back() {
    let lines = long_lines(8);
    let mut g = grid(4, 8, &lines);
    let above: Vec<String> = g.lines_above.iter().map(text).collect();
    let viewport: Vec<String> = g.viewport.iter().map(text).collect();
    let before = shown(&g);
    assert!(g.scroll_unwrapped_lines(2, true));
    assert!(!g.lines_below.is_empty());
    assert_ne!(shown(&g), before);
    assert!(g.scroll_unwrapped_lines(2, false));
    assert_eq!(g.lines_above.iter().map(text).collect::<Vec<_>>(), above);
    assert_eq!(g.viewport.iter().map(text).collect::<Vec<_>>(), viewport);
    assert!(g.lines_below.is_empty());
    assert!(!g.is_scrolled);
    assert_eq!(shown(&g), before);
    assert_eq!(position_and_length(&g), (0, 4));
}
