use vstd::prelude::*;
use crate::geom::Position;
use crate::display_wrap::{
    DisplayWrapProjection, Grid, GridModel, ProjectionView, Row, RowModel, Selection, TerminalChar,
    DISPLAY_WRAP_LIMIT, buffer_to_display, buffer_to_logical, logical_to_buffer, chars_width, grid_fits, lemma_chars_width_prefix,
    lemma_prefix_width, lemma_projection_fits, lemma_row_width_nonneg, map_selection,
    prefix_width, projection_fits, projection_of, row_width, sources, within,
};
use crate::text::{string_push, trim_end, trimmed_end_len};

verus! {

/// The characters of rows `a..b`, in order.
pub open spec fn rows_chars(src: Seq<RowModel>, a: int, b: int) -> Seq<TerminalChar>
    decreases b - a,
{
    if b <= a {
        Seq::empty()
    } else {
        rows_chars(src, a, b - 1) + src[b - 1].chars
    }
}

/// The characters whose first cell lies in the columns `from..to`, cells counted from the
/// start of `chars`.
pub open spec fn chars_in_columns(chars: Seq<TerminalChar>, from: int, to: int) -> Seq<char>
    decreases chars.len(),
{
    if chars.len() == 0 {
        Seq::empty()
    } else {
        let rest = chars_in_columns(chars.drop_last(), from, to);
        let column = chars_width(chars.drop_last());
        if from <= column < to {
            rest.push(chars.last().character)
        } else {
            rest
        }
    }
}

/// Logical line `line` as one row: the characters of its rows, starting a line.
pub open spec fn logical_row(pv: ProjectionView, src: Seq<RowModel>, line: int) -> RowModel {
    RowModel { chars: rows_chars(src, pv.lines[line].0, pv.lines[line].1), is_canonical: true }
}

/// Positions in reading order: by line, then by column.
pub open spec fn position_le(a: Position, b: Position) -> bool {
    a.line < b.line || (a.line == b.line && a.column <= b.column)
}

/// The selection with its ends in reading order.
pub open spec fn sorted_selection(s: Selection) -> Selection {
    if position_le(s.start, s.end) {
        s
    } else {
        Selection { start: s.end, end: s.start, active: s.active }
    }
}

/// The first selected column of a line: the start's column on its line, else the line's start.
pub open spec fn first_selected_column(s: Selection, line: int) -> int {
    if line == s.start.line { s.start.column as int } else { 0 }
}

/// The column past the last selected one: the end's column on its line, else past any column.
pub open spec fn end_selected_column(s: Selection, line: int) -> int {
    if line == s.end.line { s.end.column as int } else { usize::MAX as int }
}

/// The selected text of each logical line from `first` up to `k`, trimmed at its end; a line
/// where the selection starts and ends at the same column gives nothing.
pub open spec fn selected_lines(
    pv: ProjectionView,
    src: Seq<RowModel>,
    s: Selection,
    first: int,
    k: int,
) -> Seq<Seq<char>>
    decreases k - first,
{
    if k <= first {
        Seq::empty()
    } else {
        let rest = selected_lines(pv, src, s, first, k - 1);
        let line = k - 1;
        let from = first_selected_column(s, line);
        let to = end_selected_column(s, line);
        if from == to {
            rest
        } else {
            rest.push(trim_end(chars_in_columns(logical_row(pv, src, line).chars, from, to)))
        }
    }
}

/// Lines joined by line feeds.
pub open spec fn joined_lines(lines: Seq<Seq<char>>) -> Seq<char>
    decreases lines.len(),
{
    if lines.len() == 0 {
        Seq::empty()
    } else if lines.len() == 1 {
        lines[0]
    } else {
        joined_lines(lines.drop_last()) + seq!['\n'] + lines.last()
    }
}

/// The text a selection (in row positions) covers: the complete logical lines it spans, not
/// the parts of them that fit on the display. Nothing for an empty selection, or when no line
/// of it holds selected columns.
pub open spec fn selected_text_of(g: GridModel, selection: Selection) -> Option<Seq<char>> {
    if selection.start == selection.end {
        None
    } else {
        let pv = projection_of(g);
        let s = sorted_selection(map_selection(selection, |p: Position| buffer_to_logical(pv, p)));
        let first = if s.start.line >= 0 { s.start.line as int } else { 0 };
        let end = if s.end.line + 1 >= 0 { s.end.line + 1 } else { 0 };
        let stop = if end <= pv.lines.len() { end } else { pv.lines.len() as int };
        let lines = selected_lines(pv, sources(g), s, first, stop);
        if lines.len() == 0 {
            None
        } else {
            Some(joined_lines(lines))
        }
    }
}

/// A selection covers the same text whichever of its ends the drag started from.
pub proof fn law_selection_direction_does_not_matter(g: GridModel, s: Selection)
    ensures
        selected_text_of(g, s) == selected_text_of(g, Selection { start: s.end, end: s.start, active: s.active }),
{
    let pv = projection_of(g);
    let a = map_selection(s, |p: Position| buffer_to_logical(pv, p));
    let b = map_selection(Selection { start: s.end, end: s.start, active: s.active }, |p: Position| buffer_to_logical(pv, p));
    assert(sorted_selection(a) == sorted_selection(b));
}

pub proof fn lemma_chars_width_concat(x: Seq<TerminalChar>, y: Seq<TerminalChar>)
    ensures
        chars_width(x + y) == chars_width(x) + chars_width(y),
    decreases y.len(),
{
    if y.len() == 0 {
        assert(x + y =~= x);
    } else {
        assert((x + y).drop_last() =~= x + y.drop_last());
        lemma_chars_width_concat(x, y.drop_last());
    }
}

pub proof fn lemma_rows_chars_width(src: Seq<RowModel>, a: int, b: int)
    requires
        0 <= a <= b <= src.len(),
    ensures
        chars_width(rows_chars(src, a, b)) == prefix_width(src, b) - prefix_width(src, a),
    decreases b - a,
{
    if b > a {
        lemma_rows_chars_width(src, a, b - 1);
        lemma_chars_width_concat(rows_chars(src, a, b - 1), src[b - 1].chars);
    }
}

/// The widths of all rows, and the columns reached inside rows `a..b`, stay within the limit.
proof fn lemma_column_bound(g: GridModel, a: int, idx: int, j: int)
    requires
        grid_fits(g),
        0 <= a <= idx < sources(g).len(),
        0 <= j <= sources(g)[idx].chars.len(),
    ensures
        0 <= chars_width(rows_chars(sources(g), a, idx) + sources(g)[idx].chars.take(j))
            <= DISPLAY_WRAP_LIMIT,
{
    let src = sources(g);
    let n = src.len() as int;
    assert forall|k: int| 0 <= k < src.len() implies row_width(#[trigger] src[k]) >= 0 by {
        lemma_row_width_nonneg(src[k]);
    }
    lemma_rows_chars_width(src, a, idx);
    lemma_rows_chars_width(src, a, idx + 1);
    lemma_chars_width_concat(rows_chars(src, a, idx), src[idx].chars.take(j));
    lemma_chars_width_concat(rows_chars(src, a, idx), src[idx].chars);
    lemma_chars_width_prefix(src[idx].chars, j);
    lemma_prefix_width(src, n, idx + 1);
    lemma_prefix_width(src, idx + 1, a);
    lemma_prefix_width(src, idx, a);
    assert(prefix_width(src, idx + 1) == prefix_width(src, idx) + row_width(src[idx]));
}

impl DisplayWrapProjection {
    /// The characters of logical line `line` whose first cell lies in the columns `from..to`.
    fn line_chars_between(&self, grid: &Grid, line: usize, from: usize, to: usize) -> (text: Vec<
        char,
    >)
        requires
            grid_fits(grid@),
            self@ == projection_of(grid@),
            line < self@.lines.len(),
        ensures
            text@ == chars_in_columns(logical_row(self@, sources(grid@), line as int).chars, from as int, to as int),
    {
        let ghost src = sources(grid@);
        proof {
            lemma_projection_fits(grid@);
        }
        let range = self.lines[line];
        assert(self@.lines[line as int] == (range.0 as int, range.1 as int));
        let a = range.0;
        let b = range.1;
        let mut text: Vec<char> = Vec::new();
        let mut column: usize = 0;
        let mut index = a;
        assert(rows_chars(src, a as int, a as int) =~= Seq::<TerminalChar>::empty());
        while index < b
            invariant
                grid_fits(grid@),
                src == sources(grid@),
                projection_fits(self@),
                self@ == projection_of(grid@),
                a <= index <= b <= src.len(),
                column == chars_width(rows_chars(src, a as int, index as int)),
                text@ == chars_in_columns(rows_chars(src, a as int, index as int), from as int, to as int),
            decreases b - index,
        {
            let row = grid.source(index);
            let ghost before = rows_chars(src, a as int, index as int);
            let mut j: usize = 0;
            assert(row.columns@.take(0) =~= Seq::<TerminalChar>::empty());
            assert(before + row.columns@.take(0) =~= before);
            while j < row.columns.len()
                invariant
                    grid_fits(grid@),
                    src == sources(grid@),
                    a <= index < b <= src.len(),
                    row@ == src[index as int],
                    before == rows_chars(src, a as int, index as int),
                    j <= row.columns@.len(),
                    column == chars_width(before + row.columns@.take(j as int)),
                    text@ == chars_in_columns(before + row.columns@.take(j as int), from as int, to as int),
                decreases row.columns@.len() - j,
            {
                let c = row.columns[j];
                let ghost done = before + row.columns@.take(j as int);
                assert(before + row.columns@.take(j + 1) =~= done.push(c));
                assert(done.push(c).drop_last() =~= done);
                proof {
                    lemma_column_bound(grid@, a as int, index as int, j + 1);
                }
                if from <= column && column < to {
                    text.push(c.character);
                }
                column = column + c.width;
                j += 1;
            }
            assert(row.columns@.take(j as int) =~= row.columns@);
            index += 1;
        }
        text
    }

    /// The complete text of the logical lines a selection (in row positions) spans, each line
    /// trimmed at its end and the lines joined by line feeds; `None` for an empty selection or
    /// when no line of it holds selected columns.
    pub fn selected_text(&self, grid: &Grid, selection: &Selection) -> (r: Option<String>)
        requires
            grid_fits(grid@),
            self@ == projection_of(grid@),
            within(selection.start, 8),
            within(selection.end, 8),
        ensures
            r is None <==> selected_text_of(grid@, *selection) is None,
            r matches Some(t) ==> selected_text_of(grid@, *selection) == Some(t@),
    {
        if selection.start == selection.end {
            return None;
        }
        proof {
            lemma_projection_fits(grid@);
        }
        let ghost pv = self@;
        let ghost src = sources(grid@);
        let logical = self.selection_to_logical(*selection);
        let s = if logical.start.line < logical.end.line || (logical.start.line == logical.end.line
            && logical.start.column <= logical.end.column) {
            logical
        } else {
            Selection { start: logical.end, end: logical.start, active: logical.active }
        };
        assert(s == sorted_selection(map_selection(*selection, |p: Position| buffer_to_logical(pv, p))));
        let first: usize = if s.start.line >= 0 { s.start.line as usize } else { 0 };
        let end_line: isize = s.end.line + 1;
        let end: usize = if end_line >= 0 { end_line as usize } else { 0 };
        let stop: usize = if end <= self.lines.len() { end } else { self.lines.len() };
        let mut out = String::new();
        let mut count: usize = 0;
        let mut line = first;
        while line < stop
            invariant
                grid_fits(grid@),
                projection_fits(self@),
                self@ == projection_of(grid@),
                pv == self@,
                src == sources(grid@),
                within(s.start, 10),
                within(s.end, 10),
                stop <= self@.lines.len(),
                first <= line,
                first <= stop ==> line <= stop,
                first > stop ==> line == first,
                count == selected_lines(pv, src, s, first as int, line as int).len(),
                count <= line,
                out@ == joined_lines(selected_lines(pv, src, s, first as int, line as int)),
            decreases stop - line,
        {
            let ghost prev = selected_lines(pv, src, s, first as int, line as int);
            let from: usize = if line as isize == s.start.line { s.start.column } else { 0 };
            let to: usize = if line as isize == s.end.line { s.end.column } else { usize::MAX };
            assert(from == first_selected_column(s, line as int));
            assert(to == end_selected_column(s, line as int));
            if from != to {
                let chars = self.line_chars_between(grid, line, from, to);
                let n = trimmed_end_len(&chars);
                let ghost piece = trim_end(chars_in_columns(logical_row(pv, src, line as int).chars, from as int, to as int));
                assert(piece == chars@.take(n as int));
                let ghost start_out = out@;
                if count > 0 {
                    string_push(&mut out, '\n');
                }
                let ghost base = out@;
                let mut i: usize = 0;
                while i < n
                    invariant
                        i <= n <= chars@.len(),
                        out@ == base + chars@.take(i as int),
                    decreases n - i,
                {
                    string_push(&mut out, chars[i]);
                    assert(chars@.take(i + 1) =~= chars@.take(i as int).push(chars@[i as int]));
                    i += 1;
                }
                let ghost next = prev.push(piece);
                assert(next.drop_last() =~= prev);
                assert(selected_lines(pv, src, s, first as int, line + 1) == next);
                if count == 0 {
                    assert(base + chars@.take(n as int) =~= piece);
                } else {
                    assert(out@ =~= start_out + seq!['\n'] + piece);
                }
                count += 1;
            } else {
                assert(selected_lines(pv, src, s, first as int, line + 1) == prev);
            }
            line += 1;
        }
        if count == 0 {
            None
        } else {
            Some(out)
        }
    }
}

/// The cells of rows `a..b`, by the widths the view keeps.
pub open spec fn range_width(pv: ProjectionView, a: int, b: int) -> int
    decreases b - a,
{
    if b <= a {
        0
    } else {
        range_width(pv, a, b - 1) + pv.widths[b - 1]
    }
}

/// All rows together are within the limit, in cells.
pub open spec fn widths_fit(pv: ProjectionView) -> bool {
    range_width(pv, 0, pv.widths.len() as int) <= DISPLAY_WRAP_LIMIT
}

/// The whole logical line shown at display line `p.line`, from its start to past its last
/// cell, in row positions; `None` when no logical line shows there.
pub open spec fn line_bounds(pv: ProjectionView, p: Position) -> Option<(Position, Position)> {
    let line = p.line + pv.first_visible;
    if line < 0 || line >= pv.lines.len() {
        None
    } else {
        let width = range_width(pv, pv.lines[line].0, pv.lines[line].1);
        Some((
            logical_to_buffer(pv, Position { line: line as isize, column: 0 }),
            logical_to_buffer(pv, Position { line: line as isize, column: width as usize }),
        ))
    }
}

proof fn lemma_range_width_split(pv: ProjectionView, a: int, m: int, b: int)
    requires
        a <= m <= b,
    ensures
        range_width(pv, a, b) == range_width(pv, a, m) + range_width(pv, m, b),
    decreases b - m,
{
    if b > m {
        lemma_range_width_split(pv, a, m, b - 1);
    }
}

proof fn lemma_range_width_nonneg(pv: ProjectionView, a: int, b: int)
    requires
        projection_fits(pv),
        0 <= a,
        b <= pv.widths.len(),
    ensures
        range_width(pv, a, b) >= 0,
    decreases b - a,
{
    if b > a {
        lemma_range_width_nonneg(pv, a, b - 1);
    }
}

/// Rows `a..b` take no more cells than all rows together.
proof fn lemma_range_width_bound(pv: ProjectionView, a: int, b: int)
    requires
        projection_fits(pv),
        0 <= a <= b <= pv.widths.len(),
    ensures
        0 <= range_width(pv, a, b) <= range_width(pv, 0, pv.widths.len() as int),
{
    let n = pv.widths.len() as int;
    lemma_range_width_split(pv, 0, a, n);
    lemma_range_width_split(pv, a, b, n);
    lemma_range_width_nonneg(pv, 0, a);
    lemma_range_width_nonneg(pv, a, b);
    lemma_range_width_nonneg(pv, b, n);
}

proof fn lemma_range_width_rows(g: GridModel, k: int)
    requires
        0 <= k <= sources(g).len(),
    ensures
        range_width(projection_of(g), 0, k) == prefix_width(sources(g), k),
    decreases k,
{
    if k > 0 {
        lemma_range_width_rows(g, k - 1);
    }
}

/// The view of a grid within the limits keeps its rows within the limit, in cells.
pub proof fn lemma_widths_fit(g: GridModel)
    requires
        grid_fits(g),
    ensures
        widths_fit(projection_of(g)),
{
    lemma_range_width_rows(g, sources(g).len() as int);
}

impl Grid {
    /// The display-wrap view of the grid.
    pub fn display_wrap_projection(&self) -> (p: DisplayWrapProjection)
        requires
            grid_fits(self@),
        ensures
            p@ == projection_of(self@),
    {
        DisplayWrapProjection::new(self)
    }
}

impl DisplayWrapProjection {
    /// A selection (in row positions) as it shows on the display.
    pub fn selection_to_display(&self, selection: Selection) -> (r: Selection)
        requires
            projection_fits(self@),
            within(selection.start, 8),
            within(selection.end, 8),
        ensures
            r == map_selection(selection, |p: Position| buffer_to_display(self@, p)),
    {
        Selection {
            start: self.buffer_to_display(selection.start),
            end: self.buffer_to_display(selection.end),
            active: selection.active,
        }
    }

    /// The whole logical line shown at a display position, from its start to past its end, in
    /// row positions.
    pub fn line_at(&self, p: Position) -> (r: Option<(Position, Position)>)
        requires
            projection_fits(self@),
            widths_fit(self@),
            within(p, 4),
        ensures
            r == line_bounds(self@, p),
    {
        let line = p.line + self.first_visible as isize;
        if line < 0 || line as usize >= self.lines.len() {
            return None;
        }
        let range = self.lines[line as usize];
        assert(self@.lines[line as int] == (range.0 as int, range.1 as int));
        let mut width: usize = 0;
        let mut index = range.0;
        while index < range.1
            invariant
                projection_fits(self@),
                widths_fit(self@),
                range.0 <= index <= range.1 <= self@.widths.len(),
                width == range_width(self@, range.0 as int, index as int),
            decreases range.1 - index,
        {
            proof {
                lemma_range_width_bound(self@, range.0 as int, index + 1);
            }
            assert(self@.widths[index as int] == self.source_widths@[index as int] as int);
            width = width + self.source_widths[index];
            index += 1;
        }
        proof {
            lemma_range_width_bound(self@, range.0 as int, range.1 as int);
        }
        Some((
            self.logical_to_buffer(Position { line, column: 0 }),
            self.logical_to_buffer(Position { line, column: width }),
        ))
    }

    /// Logical line `line` as one row.
    fn row(&self, grid: &Grid, line: usize) -> (r: Row)
        requires
            grid_fits(grid@),
            self@ == projection_of(grid@),
            line < self@.lines.len(),
        ensures
            r@ == logical_row(self@, sources(grid@), line as int),
    {
        let ghost src = sources(grid@);
        proof {
            lemma_projection_fits(grid@);
        }
        let range = self.lines[line];
        assert(self@.lines[line as int] == (range.0 as int, range.1 as int));
        let mut columns: Vec<TerminalChar> = Vec::new();
        let mut index = range.0;
        assert(rows_chars(src, range.0 as int, range.0 as int) =~= Seq::<TerminalChar>::empty());
        while index < range.1
            invariant
                grid_fits(grid@),
                src == sources(grid@),
                range.0 <= index <= range.1 <= src.len(),
                columns@ == rows_chars(src, range.0 as int, index as int),
            decreases range.1 - index,
        {
            let row = grid.source(index);
            let ghost before = columns@;
            let mut j: usize = 0;
            while j < row.columns.len()
                invariant
                    row@ == src[index as int],
                    j <= row.columns@.len(),
                    columns@ == before + row.columns@.take(j as int),
                decreases row.columns@.len() - j,
            {
                columns.push(row.columns[j]);
                assert(before + row.columns@.take(j + 1) =~= (before + row.columns@.take(j as int)).push(row.columns@[j as int]));
                j += 1;
            }
            assert(row.columns@.take(j as int) =~= row.columns@);
            index += 1;
        }
        Row { columns, is_canonical: true }
    }

    /// The logical lines shown, each as one row, top to bottom.
    pub fn visible_rows(&self, grid: &Grid) -> (rows: Vec<Row>)
        requires
            grid_fits(grid@),
            self@ == projection_of(grid@),
        ensures
            ({
                let end = if self@.first_visible + self@.height <= self@.lines.len() {
                    self@.first_visible + self@.height
                } else {
                    self@.lines.len() as int
                };
                &&& rows@.len() == (if end > self@.first_visible { end - self@.first_visible } else { 0 })
                &&& forall|i: int| 0 <= i < rows@.len() ==> (#[trigger] rows@[i])@ == logical_row(self@, sources(grid@), self@.first_visible + i)
            }),
    {
        proof {
            lemma_projection_fits(grid@);
        }
        let top = self.first_visible + self.height;
        let end = if top <= self.lines.len() { top } else { self.lines.len() };
        let mut rows: Vec<Row> = Vec::new();
        let mut line = self.first_visible;
        while line < end
            invariant
                grid_fits(grid@),
                self@ == projection_of(grid@),
                projection_fits(self@),
                end <= self@.lines.len(),
                self.first_visible <= line,
                self.first_visible < end ==> line <= end,
                self.first_visible >= end ==> line == self.first_visible,
                rows@.len() == line - self.first_visible,
                forall|i: int| 0 <= i < rows@.len() ==> (#[trigger] rows@[i])@ == logical_row(self@, sources(grid@), self@.first_visible + i),
            decreases end - line,
        {
            let row = self.row(grid, line);
            rows.push(row);
            line += 1;
        }
        rows
    }
}

} // verus!
