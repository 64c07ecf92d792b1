use vstd::prelude::*;
use crate::geom::Position;
use crate::display_wrap::{
    DISPLAY_WRAP_LIMIT, GridModel, ProjectionModel, ProjectionView, RowModel, Selection,
    buffer_to_display, buffer_to_logical, display_to_buffer, first_fit, grid_fits, law_scrolling_keeps_the_rows, lemma_project,
    lemma_projection_fits, logical_to_buffer, map_selection, project, projection_fits,
    projection_of, row_width, scroll_steps, scrolled_down_by, scrolled_up_by, shifted, sources,
    unwrapped_scroll, within, wrapped_height, lemma_wrap_state, scrolled_down, scrolled_up,
    wrapped_rows, lemma_first_fit, selection_fits, position_fits,
};
use crate::display_wrap_text::{logical_row, selected_lines, selected_text_of, sorted_selection};

verus! {

/// How the logical lines hold their rows, after the first `k` rows: every row of a line's range
/// belongs to that line, the first row of a line starts at column zero, each next row of a line
/// starts where the one before it ends, and the line being built ends at `column`.
pub open spec fn model_structured(pm: ProjectionModel, src: Seq<RowModel>, k: int) -> bool {
    &&& forall|l: int, i: int|
        #![trigger pm.lines[l], pm.origins[i]]
        0 <= l < pm.lines.len() && pm.lines[l].0 <= i < pm.lines[l].1 ==> pm.origins[i].0 == l
    &&& forall|l: int| 0 <= l < pm.lines.len() ==> (#[trigger] pm.origins[pm.lines[l].0]).1 == 0
    &&& forall|l: int, i: int|
        #![trigger pm.lines[l], pm.origins[i]]
        0 <= l < pm.lines.len() && pm.lines[l].0 <= i && i + 1 < pm.lines[l].1 ==> pm.origins[i
            + 1].1 == pm.origins[i].1 + row_width(src[i])
    &&& k > 0 ==> pm.column == pm.origins[k - 1].1 + row_width(src[k - 1])
}

pub proof fn lemma_project_structured(src: Seq<RowModel>, k: int)
    requires
        0 <= k <= src.len(),
    ensures
        model_structured(project(src, k), src, k),
    decreases k,
{
    if k > 0 {
        lemma_project_structured(src, k - 1);
        lemma_project(src, k - 1);
        lemma_project(src, k);
        let prev = project(src, k - 1);
        let pm = project(src, k);
        let i = k - 1;
        let starts = src[i].is_canonical || prev.lines.len() == 0;
        if starts {
            let big_l = prev.lines.len() as int;
            assert(pm.lines =~= prev.lines.push((i, i + 1)));
            assert(pm.origins =~= prev.origins.push((big_l, 0)));
            assert forall|l: int, j: int|
                #![trigger pm.lines[l], pm.origins[j]]
                0 <= l < pm.lines.len() && pm.lines[l].0 <= j < pm.lines[l].1 implies pm.origins[j].0
                == l by {
                if l < big_l {
                    assert(prev.lines[l] == pm.lines[l]);
                    assert(prev.origins[j] == pm.origins[j]);
                }
            }
            assert forall|l: int| 0 <= l < pm.lines.len() implies (#[trigger] pm.origins[pm.lines[
                l].0]).1 == 0 by {
                if l < big_l {
                    assert(prev.lines[l] == pm.lines[l]);
                    assert(prev.origins[prev.lines[l].0] == pm.origins[pm.lines[l].0]);
                }
            }
            assert forall|l: int, j: int|
                #![trigger pm.lines[l], pm.origins[j]]
                0 <= l < pm.lines.len() && pm.lines[l].0 <= j && j + 1 < pm.lines[l].1 implies pm.origins[j
                + 1].1 == pm.origins[j].1 + row_width(src[j]) by {
                if l < big_l {
                    assert(prev.lines[l] == pm.lines[l]);
                    assert(prev.origins[j] == pm.origins[j]);
                    assert(prev.origins[j + 1] == pm.origins[j + 1]);
                }
            }
        } else {
            let big_l = prev.lines.len() - 1;
            assert(pm.lines =~= prev.lines.update(big_l, (prev.lines[big_l].0, i + 1)));
            assert(pm.origins =~= prev.origins.push((big_l, prev.column)));
            assert(prev.lines[big_l].1 == i);
            assert forall|l: int, j: int|
                #![trigger pm.lines[l], pm.origins[j]]
                0 <= l < pm.lines.len() && pm.lines[l].0 <= j < pm.lines[l].1 implies pm.origins[j].0
                == l by {
                if l < big_l {
                    assert(prev.lines[l] == pm.lines[l]);
                    assert(prev.origins[j] == pm.origins[j]);
                } else if j < i {
                    assert(prev.lines[l].0 == pm.lines[l].0);
                    assert(prev.origins[j] == pm.origins[j]);
                }
            }
            assert forall|l: int| 0 <= l < pm.lines.len() implies (#[trigger] pm.origins[pm.lines[
                l].0]).1 == 0 by {
                assert(prev.lines[l].0 == pm.lines[l].0);
                assert(prev.origins[prev.lines[l].0] == pm.origins[pm.lines[l].0]);
            }
            assert forall|l: int, j: int|
                #![trigger pm.lines[l], pm.origins[j]]
                0 <= l < pm.lines.len() && pm.lines[l].0 <= j && j + 1 < pm.lines[l].1 implies pm.origins[j
                + 1].1 == pm.origins[j].1 + row_width(src[j]) by {
                if l < big_l {
                    assert(prev.lines[l] == pm.lines[l]);
                    assert(prev.origins[j] == pm.origins[j]);
                    assert(prev.origins[j + 1] == pm.origins[j + 1]);
                } else if j + 1 < i {
                    assert(prev.lines[l].0 == pm.lines[l].0);
                    assert(prev.origins[j] == pm.origins[j]);
                    assert(prev.origins[j + 1] == pm.origins[j + 1]);
                } else {
                    assert(j == i - 1);
                    assert(prev.origins[j] == pm.origins[j]);
                }
            }
        }
    }
}

/// The view's logical lines hold their rows as `model_structured` says, with the widths the
/// view keeps.
pub open spec fn view_structured(pv: ProjectionView) -> bool {
    &&& forall|l: int, i: int|
        #![trigger pv.lines[l], pv.origins[i]]
        0 <= l < pv.lines.len() && pv.lines[l].0 <= i < pv.lines[l].1 ==> pv.origins[i].0 == l
    &&& forall|l: int| 0 <= l < pv.lines.len() ==> (#[trigger] pv.origins[pv.lines[l].0]).1 == 0
    &&& forall|l: int, i: int|
        #![trigger pv.lines[l], pv.origins[i]]
        0 <= l < pv.lines.len() && pv.lines[l].0 <= i && i + 1 < pv.lines[l].1 ==> pv.origins[i
            + 1].1 == pv.origins[i].1 + pv.widths[i]
}

pub proof fn lemma_view_structured(g: GridModel)
    ensures
        view_structured(projection_of(g)),
{
    let src = sources(g);
    let n = src.len() as int;
    lemma_project_structured(src, n);
    lemma_project(src, n);
    let pv = projection_of(g);
    let pm = project(src, n);
    assert forall|l: int, i: int|
        #![trigger pv.lines[l], pv.origins[i]]
        0 <= l < pv.lines.len() && pv.lines[l].0 <= i && i + 1 < pv.lines[l].1 implies pv.origins[i
        + 1].1 == pv.origins[i].1 + pv.widths[i] by {
        assert(pm.lines[l] == pv.lines[l]);
        assert(pm.origins[i] == pv.origins[i]);
        assert(pv.widths[i] == row_width(src[i]));
    }
}

/// Following a logical column through the rows of its line and back gives the column again.
proof fn lemma_first_fit_round_trip(pv: ProjectionView, l: int, column: int, index: int)
    requires
        projection_fits(pv),
        view_structured(pv),
        0 <= l < pv.lines.len(),
        pv.lines[l].0 <= index < pv.lines[l].1,
        pv.origins[index].1 <= column <= 14 * DISPLAY_WRAP_LIMIT,
    ensures
        buffer_to_logical(pv, first_fit(pv, column, index, pv.lines[l].1)) == (Position {
            line: l as isize,
            column: column as usize,
        }),
    decreases pv.lines[l].1 - index,
{
    let end = pv.lines[l].1;
    let origin = pv.origins[index].1;
    let c = column - origin;
    assert(pv.origins[index].0 == l);
    if c <= pv.widths[index] || index + 1 == end {
    } else {
        assert(pv.origins[index + 1].1 == origin + pv.widths[index]);
        lemma_first_fit_round_trip(pv, l, column, index + 1);
    }
}

/// A logical position taken to the rows and back is the same position.
pub proof fn lemma_round_trip(pv: ProjectionView, q: Position)
    requires
        projection_fits(pv),
        view_structured(pv),
        within(q, 14),
    ensures
        buffer_to_logical(pv, logical_to_buffer(pv, q)) == q,
{
    if 0 <= q.line < pv.lines.len() {
        let l = q.line as int;
        assert(pv.origins[pv.lines[l].0].1 == 0);
        lemma_first_fit_round_trip(pv, l, q.column as int, pv.lines[l].0);
    }
}

/// A position of the logical lines, taken to the rows of the grid and back, is the same
/// position: each logical column falls in exactly one row of its line.
pub proof fn law_logical_positions_survive_the_rows(g: GridModel, q: Position)
    requires
        grid_fits(g),
        within(q, 14),
    ensures
        buffer_to_logical(projection_of(g), logical_to_buffer(projection_of(g), q)) == q,
{
    lemma_projection_fits(g);
    lemma_view_structured(g);
    lemma_round_trip(projection_of(g), q);
}

/// A display position (where the mouse is), taken to the rows of the grid and back to the
/// display, is the same position.
pub proof fn law_display_positions_survive_the_rows(g: GridModel, p: Position)
    requires
        grid_fits(g),
        within(p, 12),
    ensures
        buffer_to_display(projection_of(g), display_to_buffer(projection_of(g), p)) == p,
{
    let pv = projection_of(g);
    lemma_projection_fits(g);
    lemma_view_structured(g);
    let q = Position { line: (p.line + pv.first_visible) as isize, column: p.column };
    lemma_round_trip(pv, q);
}

/// A scroll with nothing to move (a zero count, or scrolling up with the first logical line
/// shown) moves no row, and the selection keeps its text.
pub proof fn law_nothing_to_move_moves_nothing(g: GridModel, count: int, up: bool)
    requires
        0 <= count,
        count == 0 || (up && projection_of(g).first_visible == 0),
    ensures
        unwrapped_scroll(g, count, up).above == g.above,
        unwrapped_scroll(g, count, up).viewport == g.viewport,
        unwrapped_scroll(g, count, up).below == g.below,
        unwrapped_scroll(g, count, up).is_scrolled == g.is_scrolled,
        grid_fits(g) ==> selected_text_of(unwrapped_scroll(g, count, up), unwrapped_scroll(g, count, up).selection)
            == selected_text_of(g, g.selection),
{
    assert(scroll_steps(g, count, up) == 0);
    if grid_fits(g) {
        law_scrolling_keeps_the_selected_text(g, count, up);
    }
}

proof fn lemma_wrapped_height_covers_rows(src: Seq<RowModel>, start: int, end: int, width: int)
    requires
        0 <= start <= end <= src.len(),
    ensures
        wrapped_height(src, start, end, width) >= end - start,
    decreases end - start,
{
    if start < end {
        lemma_wrapped_height_covers_rows(src, start + 1, end, width);
        lemma_wrap_state(src[start].chars, width, src[start].chars.len() as int);
    }
}

proof fn lemma_scrolled_down_empties_below(g: GridModel, n: int)
    requires
        n >= g.below.len(),
    ensures
        scrolled_down_by(g, n).below.len() == 0,
        g.below.len() > 0 ==> !scrolled_down_by(g, n).is_scrolled,
        g.below.len() == 0 ==> scrolled_down_by(g, n) == g,
    decreases n,
{
    if n > 0 && g.below.len() > 0 {
        let h = scrolled_down(g);
        assert(h.below.len() == g.below.len() - 1);
        lemma_scrolled_down_empties_below(h, n - 1);
    }
}

/// Scrolling down far enough to show the last logical line also takes in the rows waiting
/// below the viewport (the hidden rest of the last line): none is left, and the view is no
/// longer scrolled back.
pub proof fn law_scrolling_down_to_the_end_reaches_the_bottom(g: GridModel, count: int)
    requires
        count > 0,
        projection_of(g).first_visible + count >= (if projection_of(g).lines.len() >= g.height {
            projection_of(g).lines.len() - g.height
        } else {
            0
        }),
        g.below.len() > 0 || !g.is_scrolled,
    ensures
        unwrapped_scroll(g, count, false).below.len() == 0,
        !unwrapped_scroll(g, count, false).is_scrolled,
{
    let src = sources(g);
    let pv = projection_of(g);
    let n = pv.lines.len() as int;
    lemma_project(src, src.len() as int);
    let viewport_end = (g.above.len() + g.viewport.len()) as int;
    if n >= 1 {
        assert(pv.lines[n - 1].1 == src.len());
    } else {
        assert(src.len() == 0);
    }
    lemma_wrapped_height_covers_rows(src, viewport_end, src.len() as int, g.width as int);
    let steps = scroll_steps(g, count, false);
    assert(steps >= g.below.len());
    lemma_scrolled_down_empties_below(g, steps);
}

/// While the mouse extends a selection, scrolling the view keeps the moving end where the
/// mouse is on the display, and the other end on the same text.
#[verifier::spinoff_prover]
#[verifier::rlimit(40)]
pub proof fn law_dragged_end_stays_under_the_mouse(g: GridModel, count: int, up: bool)
    requires
        grid_fits(g),
        g.selection.active,
        scroll_steps(g, count, up) > 0,
    ensures
        buffer_to_display(projection_of(unwrapped_scroll(g, count, up)), unwrapped_scroll(g, count, up).selection.end)
            == buffer_to_display(projection_of(g), g.selection.end),
        buffer_to_logical(projection_of(unwrapped_scroll(g, count, up)), unwrapped_scroll(g, count, up).selection.start)
            == buffer_to_logical(projection_of(g), g.selection.start),
{
    let pv = projection_of(g);
    let steps = scroll_steps(g, count, up);
    let g2 = if up { scrolled_up_by(g, steps) } else { scrolled_down_by(g, steps) };
    law_scrolling_keeps_the_rows(g, steps, up);
    let pv2 = projection_of(g2);
    let g3 = unwrapped_scroll(g, count, up);
    assert(sources(g2) == sources(g));
    assert(pv2.lines == pv.lines);
    assert(pv2.origins == pv.origins);
    assert(pv2.widths =~= pv.widths);
    assert(projection_of(g3) == pv2);
    assert(grid_fits(g2));
    lemma_projection_fits(g);
    lemma_projection_fits(g2);
    lemma_view_structured(g2);
    let q1 = buffer_to_logical(pv, g.selection.start);
    let q2 = buffer_to_logical(pv, g.selection.end);
    lemma_buffer_to_logical_within(pv, g.selection.start);
    lemma_buffer_to_logical_within(pv, g.selection.end);
    assert(shifted(q1, 0) == q1);
    assert(shifted(q2, 0) == q2);
    let e = Position { line: (q2.line + pv2.first_visible - pv.first_visible) as isize, column: q2.column };
    assert(g3.selection.end == logical_to_buffer(pv2, e));
    assert(g3.selection.start == logical_to_buffer(pv2, q1));
    lemma_round_trip(pv2, q1);
    lemma_round_trip(pv2, e);
}

proof fn lemma_buffer_to_logical_within(pv: ProjectionView, p: Position)
    requires
        projection_fits(pv),
        within(p, 8),
    ensures
        within(buffer_to_logical(pv, p), 10),
{
}

/// The selected lines depend on the view through its logical lines only.
proof fn lemma_selected_lines_by_lines(
    pv: ProjectionView,
    pv2: ProjectionView,
    src: Seq<RowModel>,
    s: Selection,
    first: int,
    k: int,
)
    requires
        pv.lines == pv2.lines,
    ensures
        selected_lines(pv, src, s, first, k) == selected_lines(pv2, src, s, first, k),
    decreases k - first,
{
    if k > first {
        lemma_selected_lines_by_lines(pv, pv2, src, s, first, k - 1);
        assert(logical_row(pv, src, k - 1) == logical_row(pv2, src, k - 1));
    }
}

/// A selection whose two ends are the same logical position selects no line.
proof fn lemma_empty_selection_selects_nothing(
    pv: ProjectionView,
    src: Seq<RowModel>,
    s: Selection,
    first: int,
    k: int,
)
    requires
        s.start == s.end,
        s.start.line <= first,
        k <= s.end.line + 1 || k <= first,
    ensures
        selected_lines(pv, src, s, first, k).len() == 0,
    decreases k - first,
{
    if k > first {
        lemma_empty_selection_selects_nothing(pv, src, s, first, k - 1);
    }
}

/// Scrolling by logical lines keeps a selection anchored to its text: after the scroll it
/// covers the same text as before, unless the mouse is extending it while the view moves.
pub proof fn law_scrolling_keeps_the_selected_text(g: GridModel, count: int, up: bool)
    requires
        grid_fits(g),
        !g.selection.active || scroll_steps(g, count, up) == 0,
    ensures
        selected_text_of(unwrapped_scroll(g, count, up), unwrapped_scroll(g, count, up).selection)
            == selected_text_of(g, g.selection),
{
    let pv = projection_of(g);
    let steps = scroll_steps(g, count, up);
    let g2 = if up { scrolled_up_by(g, steps) } else { scrolled_down_by(g, steps) };
    law_scrolling_keeps_the_rows(g, steps, up);
    let pv2 = projection_of(g2);
    let g3 = unwrapped_scroll(g, count, up);
    assert(sources(g2) == sources(g));
    assert(pv2.lines == pv.lines);
    assert(pv2.origins == pv.origins);
    assert(pv2.widths =~= pv.widths);
    assert(projection_of(g3) == pv2);
    assert(grid_fits(g2));
    lemma_projection_fits(g);
    lemma_projection_fits(g2);
    lemma_view_structured(g2);
    let sel = g.selection;
    let q1 = buffer_to_logical(pv, sel.start);
    let q2 = buffer_to_logical(pv, sel.end);
    lemma_buffer_to_logical_within(pv, sel.start);
    lemma_buffer_to_logical_within(pv, sel.end);
    assert(shifted(q1, 0) == q1);
    assert(shifted(q2, 0) == q2);
    let s3 = g3.selection;
    assert(s3.start == logical_to_buffer(pv2, q1));
    assert(s3.end == logical_to_buffer(pv2, q2));
    lemma_round_trip(pv2, q1);
    lemma_round_trip(pv2, q2);
    let src = sources(g);
    let s = sorted_selection(map_selection(sel, |p: Position| buffer_to_logical(pv, p)));
    assert(sorted_selection(map_selection(s3, |p: Position| buffer_to_logical(pv2, p))) == s);
    let first = if s.start.line >= 0 { s.start.line as int } else { 0 };
    let end = if s.end.line + 1 >= 0 { s.end.line + 1 } else { 0 };
    let stop = if end <= pv.lines.len() { end } else { pv.lines.len() as int };
    lemma_selected_lines_by_lines(pv, pv2, src, s, first, stop);
    if s3.start == s3.end && sel.start != sel.end {
        assert(q1 == q2);
        lemma_empty_selection_selects_nothing(pv, src, s, first, stop);
    }
}


/// The rows up to the end of a logical line hold exactly that line and those above it.
proof fn lemma_lines_up_to_line_end(src: Seq<RowModel>, n: int, l: int)
    requires
        0 <= n <= src.len(),
        0 <= l < project(src, n).lines.len(),
    ensures
        project(src, project(src, n).lines[l].1).lines.len() == l + 1,
    decreases n,
{
    lemma_project(src, n);
    let pm = project(src, n);
    if l == pm.lines.len() - 1 {
        assert(pm.lines[l].1 == n);
    } else {
        let prev = project(src, n - 1);
        lemma_project(src, n - 1);
        assert(pm.lines[l] == prev.lines[l]);
        lemma_lines_up_to_line_end(src, n - 1, l);
    }
}

proof fn lemma_wrapped_height_of_fitting_rows(src: Seq<RowModel>, start: int, end: int, width: int)
    requires
        0 <= start <= end <= src.len(),
        forall|i: int| start <= i < end ==> wrapped_rows(#[trigger] src[i], width) == 1,
    ensures
        wrapped_height(src, start, end, width) == end - start,
    decreases end - start,
{
    if start < end {
        lemma_wrapped_height_of_fitting_rows(src, start + 1, end, width);
    }
}

proof fn lemma_scrolled_up_by_full(g: GridModel, m: int)
    requires
        0 <= m <= g.above.len(),
        g.viewport.len() == g.height > 0,
    ensures
        scrolled_up_by(g, m).above.len() == g.above.len() - m,
        scrolled_up_by(g, m).viewport.len() == g.height,
        scrolled_up_by(g, m).below.len() == g.below.len() + m,
        scrolled_up_by(g, m).height == g.height,
    decreases m,
{
    if m > 0 {
        lemma_scrolled_up_by_full(scrolled_up(g), m - 1);
    }
}

proof fn lemma_scrolled_down_by_full(g: GridModel, m: int)
    requires
        0 <= m <= g.below.len(),
        g.viewport.len() == g.height > 0,
    ensures
        scrolled_down_by(g, m).above.len() == g.above.len() + m,
        scrolled_down_by(g, m).viewport.len() == g.height,
        scrolled_down_by(g, m).below.len() == g.below.len() - m,
        scrolled_down_by(g, m).height == g.height,
        m > 0 ==> scrolled_down_by(g, m).is_scrolled == (g.below.len() > m),
    decreases m,
{
    if m > 0 {
        lemma_scrolled_down_by_full(scrolled_down(g), m - 1);
    }
}

/// From the live bottom of a full screen whose rows each fit the width, scrolling up by `k`
/// logical lines and then down by `k` brings back the same rows above, on and below the
/// screen, so the same lines are shown, and the view is no longer scrolled back.
#[verifier::spinoff_prover]
#[verifier::rlimit(40)]
pub proof fn law_scrolling_up_then_down_comes_back(g: GridModel, k: int)
    requires
        g.below.len() == 0,
        g.viewport.len() == g.height > 0,
        forall|i: int| 0 <= i < sources(g).len() ==> wrapped_rows(#[trigger] sources(g)[i], g.width as int) == 1,
        0 < k <= projection_of(g).first_visible,
    ensures
        unwrapped_scroll(g, k, true).below.len() > 0,
        unwrapped_scroll(unwrapped_scroll(g, k, true), k, false).above == g.above,
        unwrapped_scroll(unwrapped_scroll(g, k, true), k, false).viewport == g.viewport,
        unwrapped_scroll(unwrapped_scroll(g, k, true), k, false).below == g.below,
        projection_of(unwrapped_scroll(unwrapped_scroll(g, k, true), k, false)) == projection_of(g),
        !unwrapped_scroll(unwrapped_scroll(g, k, true), k, false).is_scrolled,
{
    let src = sources(g);
    let n = src.len() as int;
    let h = g.height as int;
    let a = g.above.len() as int;
    let pv = projection_of(g);
    let big_l = pv.lines.len() as int;
    lemma_project(src, n);
    assert(a + g.viewport.len() == n);
    assert(pv.first_visible == big_l - h);
    // Up: the last k lines leave the screen.
    let s = pv.lines[big_l - k - 1].1;
    lemma_lines_up_to_line_end(src, n, big_l - k - 1);
    lemma_project(src, s);
    assert(big_l - k <= s);
    assert(s < n) by {
        if s == n {
            assert(project(src, s).lines.len() == big_l);
        }
    }
    lemma_wrapped_height_of_fitting_rows(src, s, n, g.width as int);
    assert(scroll_steps(g, k, true) == n - s);
    let m = n - s;
    let gu = scrolled_up_by(g, m);
    lemma_scrolled_up_by_full(g, m);
    law_scrolling_keeps_the_rows(g, m, true);
    let g2 = unwrapped_scroll(g, k, true);
    assert(g2.above == gu.above && g2.viewport == gu.viewport && g2.below == gu.below);
    assert(g2.height == g.height && g2.width == g.width);
    assert(sources(g2) == src);
    assert(g2.above.len() + g2.viewport.len() == s);
    // Down: the screen comes back to the last line.
    let pv2 = projection_of(g2);
    assert(pv2.lines == pv.lines);
    assert(pv2.first_visible == big_l - k - h);
    assert(pv.lines[big_l - 1].1 == n);
    assert(scroll_steps(g2, k, false) == n - s);
    let gd = scrolled_down_by(g2, m);
    lemma_scrolled_down_by_full(g2, m);
    law_scrolling_keeps_the_rows(g2, m, false);
    let g3 = unwrapped_scroll(g2, k, false);
    assert(g3.above == gd.above && g3.viewport == gd.viewport && g3.below == gd.below);
    assert(sources(g3) == src);
    assert(g3.above =~= src.take(a));
    assert(g.above =~= src.take(a));
    assert(g3.viewport =~= src.subrange(a, n));
    assert(g.viewport =~= src.subrange(a, n));
    assert(g3.below =~= g.below);
    assert(projection_of(g3).widths =~= pv.widths);
}


proof fn lemma_logical_to_buffer_within(pv: ProjectionView, p: Position)
    requires
        projection_fits(pv),
        within(p, 3),
    ensures
        within(logical_to_buffer(pv, p), 4),
{
    if 0 <= p.line < pv.lines.len() {
        let l = p.line as int;
        lemma_first_fit(pv, p.column as int, pv.lines[l].0, pv.lines[l].1);
    }
}

/// A selection whose ends lie within the limit, as positions of a grid's rows do.
pub open spec fn selection_on_rows(s: Selection) -> bool {
    within(s.start, 1) && within(s.end, 1)
}

/// Scrolling by logical lines keeps the grid within the sizes the display-wrap view handles,
/// when its selection and flashed region lie within the limit: the rows stay as they were, and
/// each end moves by less than the limit on each of its ways through the logical lines.
#[verifier::spinoff_prover]
#[verifier::rlimit(80)]
pub proof fn lemma_scrolling_keeps_the_grid_fitting(g: GridModel, count: int, up: bool)
    requires
        grid_fits(g),
        selection_on_rows(g.selection),
        g.command_output_flash matches Some(f) ==> selection_on_rows(f),
    ensures
        grid_fits(unwrapped_scroll(g, count, up)),
{
    let pv = projection_of(g);
    let steps = scroll_steps(g, count, up);
    let g2 = if up { scrolled_up_by(g, steps) } else { scrolled_down_by(g, steps) };
    law_scrolling_keeps_the_rows(g, steps, up);
    let pv2 = projection_of(g2);
    let g3 = unwrapped_scroll(g, count, up);
    assert(sources(g2) == sources(g));
    assert(pv2.lines == pv.lines);
    assert(grid_fits(g2));
    lemma_projection_fits(g);
    lemma_projection_fits(g2);
    let sel = g.selection;
    let q1 = buffer_to_logical(pv, sel.start);
    let q2 = buffer_to_logical(pv, sel.end);
    lemma_buffer_to_logical_within(pv, sel.start);
    lemma_buffer_to_logical_within(pv, sel.end);
    assert(within(q1, 2) && within(q2, 2));
    assert(shifted(q1, 0) == q1);
    assert(shifted(q2, 0) == q2);
    let e = if sel.active && steps > 0 {
        Position { line: (q2.line + pv2.first_visible - pv.first_visible) as isize, column: q2.column }
    } else {
        q2
    };
    assert(within(e, 3));
    lemma_logical_to_buffer_within(pv2, q1);
    lemma_logical_to_buffer_within(pv2, e);
    assert(g3.selection.start == logical_to_buffer(pv2, q1));
    assert(g3.selection.end == logical_to_buffer(pv2, e));
    assert(selection_fits(g3.selection));
    match g.command_output_flash {
        Some(f) => {
            let f1 = buffer_to_logical(pv, f.start);
            let f2 = buffer_to_logical(pv, f.end);
            lemma_buffer_to_logical_within(pv, f.start);
            lemma_buffer_to_logical_within(pv, f.end);
            assert(within(f1, 2) && within(f2, 2));
            assert(shifted(f1, 0) == f1);
            assert(shifted(f2, 0) == f2);
            lemma_logical_to_buffer_within(pv2, f1);
            lemma_logical_to_buffer_within(pv2, f2);
        },
        None => {},
    }
    assert(sources(g3) == sources(g));
}

} // verus!
