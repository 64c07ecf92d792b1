use vstd::prelude::*;
use crate::geom::Position;

verus! {

/// The largest number of rows, cells and lines the display-wrap view handles; positions of the
/// selection stay within twice as many lines either way.
pub const DISPLAY_WRAP_LIMIT: usize = usize::MAX / 128;

/// A character of a row and the number of cells it takes.
#[derive(Clone, Copy, Debug, PartialEq, Eq, Structural)]
pub struct TerminalChar {
    pub character: char,
    pub width: usize,
}

/// A row of the terminal: its characters, and whether it starts a line (rather than continuing
/// the one above).
#[derive(Clone, Debug)]
pub struct Row {
    pub columns: Vec<TerminalChar>,
    pub is_canonical: bool,
}

/// A row as a value.
pub struct RowModel {
    pub chars: Seq<TerminalChar>,
    pub is_canonical: bool,
}

impl View for Row {
    type V = RowModel;

    open spec fn view(&self) -> RowModel {
        RowModel { chars: self.columns@, is_canonical: self.is_canonical }
    }
}

/// The cells taken by a sequence of characters.
pub open spec fn chars_width(chars: Seq<TerminalChar>) -> int
    decreases chars.len(),
{
    if chars.len() == 0 {
        0
    } else {
        chars_width(chars.drop_last()) + chars.last().width
    }
}

pub open spec fn row_width(r: RowModel) -> int {
    chars_width(r.chars)
}

/// The rows as values.
pub open spec fn row_models(rows: Seq<Row>) -> Seq<RowModel> {
    rows.map_values(|r: Row| r@)
}

pub proof fn lemma_chars_width_take(chars: Seq<TerminalChar>, k: int)
    requires
        0 <= k < chars.len(),
    ensures
        chars_width(chars.take(k + 1)) == chars_width(chars.take(k)) + chars[k].width,
        chars_width(chars.take(k)) <= chars_width(chars),
        0 <= chars_width(chars.take(k)),
    decreases chars.len(),
{
    assert(chars.take(k + 1).drop_last() =~= chars.take(k));
    lemma_chars_width_prefix(chars, k);
}

pub proof fn lemma_chars_width_prefix(chars: Seq<TerminalChar>, k: int)
    requires
        0 <= k <= chars.len(),
    ensures
        0 <= chars_width(chars.take(k)) <= chars_width(chars),
    decreases chars.len(),
{
    if chars.len() > 0 {
        if k == chars.len() {
            assert(chars.take(k) =~= chars);
            lemma_chars_width_prefix(chars.drop_last(), k - 1);
            assert(chars.drop_last().take(k - 1) =~= chars.drop_last());
        } else {
            lemma_chars_width_prefix(chars.drop_last(), k);
            assert(chars.drop_last().take(k) =~= chars.take(k));
        }
    } else {
        assert(chars.take(k) =~= chars);
    }
}

impl Row {
    /// The cells the row takes.
    pub fn width(&self) -> (w: usize)
        requires
            row_width(self@) <= usize::MAX,
        ensures
            w == row_width(self@),
    {
        let mut w: usize = 0;
        let mut i: usize = 0;
        while i < self.columns.len()
            invariant
                i <= self.columns@.len(),
                w == chars_width(self.columns@.take(i as int)),
                chars_width(self.columns@) <= usize::MAX,
            decreases self.columns@.len() - i,
        {
            proof {
                lemma_chars_width_take(self.columns@, i as int);
                lemma_chars_width_prefix(self.columns@, i + 1);
            }
            w = w + self.columns[i].width;
            i += 1;
        }
        assert(self.columns@.take(i as int) =~= self.columns@);
        w
    }
}

/// The logical lines of the rows and where each row starts in its line, after the first `k`
/// rows: each canonical row (and the first row) starts a line; a continuation row goes on the
/// current one, at the column where the row before it ended.
pub struct ProjectionModel {
    pub lines: Seq<(int, int)>,
    pub origins: Seq<(int, int)>,
    pub column: int,
}

pub open spec fn project(sources: Seq<RowModel>, k: int) -> ProjectionModel
    decreases k,
{
    if k <= 0 {
        ProjectionModel { lines: Seq::empty(), origins: Seq::empty(), column: 0 }
    } else {
        let prev = project(sources, k - 1);
        let i = k - 1;
        let starts = sources[i].is_canonical || prev.lines.len() == 0;
        let lines1 = if starts { prev.lines.push((i, i)) } else { prev.lines };
        let column = if starts { 0 } else { prev.column };
        let line = lines1.len() - 1;
        ProjectionModel {
            lines: lines1.update(line, (lines1[line].0, i + 1)),
            origins: prev.origins.push((line, column)),
            column: column + row_width(sources[i]),
        }
    }
}

pub proof fn lemma_project(sources: Seq<RowModel>, k: int)
    requires
        0 <= k <= sources.len(),
    ensures
        project(sources, k).origins.len() == k,
        project(sources, k).lines.len() <= k,
        k > 0 ==> project(sources, k).lines.len() >= 1,
        forall|j: int| 0 <= j < k ==> 0 <= (#[trigger] project(sources, k).origins[j]).0 < project(sources, k).lines.len(),
        forall|l: int| 0 <= l < project(sources, k).lines.len() ==> 0 <= (#[trigger] project(sources, k).lines[l]).0 < project(sources, k).lines[l].1 <= k,
        k > 0 ==> project(sources, k).lines[project(sources, k).lines.len() - 1].1 == k,
    decreases k,
{
    if k > 0 {
        lemma_project(sources, k - 1);
    }
}

/// The cells of the first `k` rows.
pub open spec fn prefix_width(sources: Seq<RowModel>, k: int) -> int
    decreases k,
{
    if k <= 0 {
        0
    } else {
        prefix_width(sources, k - 1) + row_width(sources[k - 1])
    }
}

/// The characters of the first `k` rows.
pub open spec fn prefix_chars(sources: Seq<RowModel>, k: int) -> int
    decreases k,
{
    if k <= 0 {
        0
    } else {
        prefix_chars(sources, k - 1) + sources[k - 1].chars.len()
    }
}

pub proof fn lemma_prefix_chars(sources: Seq<RowModel>, j: int, k: int)
    requires
        0 <= j <= k <= sources.len(),
    ensures
        0 <= prefix_chars(sources, j) <= prefix_chars(sources, k),
    decreases k,
{
    if k > j {
        lemma_prefix_chars(sources, j, k - 1);
    } else if k > 0 {
        lemma_prefix_chars(sources, k - 1, k - 1);
    }
}

pub proof fn lemma_prefix_width(sources: Seq<RowModel>, k: int, j: int)
    requires
        0 <= j <= k <= sources.len(),
        forall|i: int| 0 <= i < sources.len() ==> row_width(#[trigger] sources[i]) >= 0,
    ensures
        0 <= prefix_width(sources, j) <= prefix_width(sources, k),
    decreases k,
{
    if k > j {
        lemma_prefix_width(sources, k - 1, j);
    } else if k > 0 {
        lemma_prefix_width(sources, k - 1, k - 1);
    }
}

pub proof fn lemma_project_column(sources: Seq<RowModel>, k: int)
    requires
        0 <= k <= sources.len(),
        forall|i: int| 0 <= i < sources.len() ==> row_width(#[trigger] sources[i]) >= 0,
    ensures
        0 <= project(sources, k).column <= prefix_width(sources, k),
        forall|j: int| 0 <= j < k ==> 0 <= (#[trigger] project(sources, k).origins[j]).1 <= prefix_width(sources, j),
    decreases k,
{
    lemma_project(sources, k);
    if k > 0 {
        lemma_project_column(sources, k - 1);
        lemma_project(sources, k - 1);
        lemma_prefix_width(sources, k - 1, k - 1);
    }
}

pub proof fn lemma_row_width_nonneg(r: RowModel)
    ensures
        row_width(r) >= 0,
{
    lemma_chars_width_prefix(r.chars, r.chars.len() as int);
    assert(r.chars.take(r.chars.len() as int) =~= r.chars);
}

/// A text selection, or the region of a command's output being flashed: its two ends, and
/// whether the mouse is still extending it.
#[derive(Clone, Copy, Debug, PartialEq, Eq, Structural)]
pub struct Selection {
    pub start: Position,
    pub end: Position,
    pub active: bool,
}

/// The selection with both ends moved by `f`.
pub open spec fn map_selection(s: Selection, f: spec_fn(Position) -> Position) -> Selection {
    Selection { start: f(s.start), end: f(s.end), active: s.active }
}

/// A terminal grid as far as display wrapping goes: the rows scrolled above the viewport, the
/// rows of the viewport, the rows below it (when scrolled back), its size, its settings, and
/// the selection and flashed region anchored to its rows.
#[derive(Debug)]
pub struct Grid {
    pub lines_above: Vec<Row>,
    pub viewport: Vec<Row>,
    pub lines_below: Vec<Row>,
    pub height: usize,
    pub width: usize,
    pub display_wrap_enabled: bool,
    pub alternate_screen: bool,
    pub selection: Selection,
    pub command_output_flash: Option<Selection>,
    pub is_scrolled: bool,
    /// Every line of the output is to be drawn again.
    pub all_lines_changed: bool,
}

/// A grid as a value.
pub struct GridModel {
    pub above: Seq<RowModel>,
    pub viewport: Seq<RowModel>,
    pub below: Seq<RowModel>,
    pub height: usize,
    pub width: usize,
    pub display_wrap_enabled: bool,
    pub alternate_screen: bool,
    pub selection: Selection,
    pub command_output_flash: Option<Selection>,
    pub is_scrolled: bool,
    pub all_lines_changed: bool,
}

impl View for Grid {
    type V = GridModel;

    open spec fn view(&self) -> GridModel {
        GridModel {
            above: row_models(self.lines_above@),
            viewport: row_models(self.viewport@),
            below: row_models(self.lines_below@),
            height: self.height,
            width: self.width,
            display_wrap_enabled: self.display_wrap_enabled,
            alternate_screen: self.alternate_screen,
            selection: self.selection,
            command_output_flash: self.command_output_flash,
            is_scrolled: self.is_scrolled,
            all_lines_changed: self.all_lines_changed,
        }
    }
}

/// All the rows of a grid, top to bottom.
pub open spec fn sources(g: GridModel) -> Seq<RowModel> {
    g.above + g.viewport + g.below
}

/// A position the display-wrap view handles.
pub open spec fn position_fits(p: Position) -> bool {
    -(4 * DISPLAY_WRAP_LIMIT) <= p.line <= 4 * DISPLAY_WRAP_LIMIT && p.column <= 4 * DISPLAY_WRAP_LIMIT
}

pub open spec fn selection_fits(s: Selection) -> bool {
    position_fits(s.start) && position_fits(s.end)
}

/// The grid is within the sizes the display-wrap view handles.
pub open spec fn grid_fits(g: GridModel) -> bool {
    &&& sources(g).len() <= DISPLAY_WRAP_LIMIT
    &&& prefix_width(sources(g), sources(g).len() as int) <= DISPLAY_WRAP_LIMIT
    &&& prefix_chars(sources(g), sources(g).len() as int) <= DISPLAY_WRAP_LIMIT
    &&& g.height <= DISPLAY_WRAP_LIMIT
    &&& selection_fits(g.selection)
    &&& (g.command_output_flash matches Some(f) ==> selection_fits(f))
}

/// The logical lines of a grid as the display-wrap view sees them.
pub struct ProjectionView {
    pub lines: Seq<(int, int)>,
    pub origins: Seq<(int, int)>,
    pub widths: Seq<int>,
    pub lines_above: int,
    pub first_visible: int,
    pub height: int,
}

/// The view of a grid: its logical lines, where each row starts in its line, and the first
/// logical line shown, chosen so that the line holding the last row of the viewport is the
/// last one shown.
pub open spec fn projection_of(g: GridModel) -> ProjectionView {
    let src = sources(g);
    let all = project(src, src.len() as int);
    let bottom = project(src, (g.above.len() + g.viewport.len()) as int).lines.len();
    ProjectionView {
        lines: all.lines,
        origins: all.origins,
        widths: src.map_values(|r: RowModel| row_width(r)),
        lines_above: g.above.len() as int,
        first_visible: if bottom >= g.height { bottom - g.height } else { 0 },
        height: g.height as int,
    }
}

/// The view's lines, origins and widths as integers.
pub open spec fn pairs_as_ints(s: Seq<(usize, usize)>) -> Seq<(int, int)> {
    s.map_values(|p: (usize, usize)| (p.0 as int, p.1 as int))
}

pub open spec fn usizes_as_ints(s: Seq<usize>) -> Seq<int> {
    s.map_values(|x: usize| x as int)
}

/// The display-wrap view of a grid: its logical lines (ranges of rows), where each row starts
/// in its line, the width of each row, and the first logical line shown.
#[derive(Debug)]
pub struct DisplayWrapProjection {
    pub lines: Vec<(usize, usize)>,
    pub source_origins: Vec<(usize, usize)>,
    pub source_widths: Vec<usize>,
    pub lines_above: usize,
    pub first_visible: usize,
    pub height: usize,
}

impl View for DisplayWrapProjection {
    type V = ProjectionView;

    open spec fn view(&self) -> ProjectionView {
        ProjectionView {
            lines: pairs_as_ints(self.lines@),
            origins: pairs_as_ints(self.source_origins@),
            widths: usizes_as_ints(self.source_widths@),
            lines_above: self.lines_above as int,
            first_visible: self.first_visible as int,
            height: self.height as int,
        }
    }
}

pub proof fn lemma_row_le_prefix(src: Seq<RowModel>, i: int)
    requires
        0 <= i < src.len(),
    ensures
        0 <= row_width(src[i]) <= prefix_width(src, src.len() as int),
        prefix_width(src, i + 1) == prefix_width(src, i) + row_width(src[i]),
{
    assert forall|k: int| 0 <= k < src.len() implies row_width(#[trigger] src[k]) >= 0 by {
        lemma_row_width_nonneg(src[k]);
    }
    lemma_prefix_width(src, src.len() as int, i + 1);
    lemma_prefix_width(src, i, i);
}

impl Grid {
    /// Rows show unwrapped, one logical line per display line, when display wrapping is off and
    /// the alternate screen is not in use.
    pub fn uses_unwrapped_display(&self) -> (r: bool)
        ensures
            r == (!self.display_wrap_enabled && !self.alternate_screen),
    {
        !self.display_wrap_enabled && !self.alternate_screen
    }

    pub(crate) fn source_count(&self) -> (n: usize)
        requires
            sources(self@).len() <= DISPLAY_WRAP_LIMIT,
        ensures
            n == sources(self@).len(),
    {
        self.lines_above.len() + self.viewport.len() + self.lines_below.len()
    }

    /// The row at `i` of all the rows, top to bottom.
    pub(crate) fn source(&self, i: usize) -> (r: &Row)
        requires
            i < sources(self@).len(),
            sources(self@).len() <= DISPLAY_WRAP_LIMIT,
        ensures
            r@ == sources(self@)[i as int],
    {
        let a = self.lines_above.len();
        let v = self.viewport.len();
        if i < a {
            &self.lines_above[i]
        } else if i < a + v {
            &self.viewport[i - a]
        } else {
            &self.lines_below[i - a - v]
        }
    }
}

impl DisplayWrapProjection {
    /// The view of a grid.
    pub fn new(grid: &Grid) -> (p: Self)
        requires
            grid_fits(grid@),
        ensures
            p@ == projection_of(grid@),
    {
        let ghost src = sources(grid@);
        let total = grid.source_count();
        let visible_end = grid.lines_above.len() + grid.viewport.len();
        let mut lines: Vec<(usize, usize)> = Vec::new();
        let mut origins: Vec<(usize, usize)> = Vec::new();
        let mut widths: Vec<usize> = Vec::new();
        let mut column: usize = 0;
        let mut viewport_bottom: usize = 0;
        let mut index: usize = 0;
        while index < total
            invariant
                src == sources(grid@),
                total == src.len(),
                total <= DISPLAY_WRAP_LIMIT,
                prefix_width(src, total as int) <= DISPLAY_WRAP_LIMIT,
                visible_end == grid@.above.len() + grid@.viewport.len(),
                index <= total,
                pairs_as_ints(lines@) == project(src, index as int).lines,
                pairs_as_ints(origins@) == project(src, index as int).origins,
                column == project(src, index as int).column,
                usizes_as_ints(widths@) == src.take(index as int).map_values(|r: RowModel| row_width(r)),
                viewport_bottom == project(src, if index <= visible_end { index as int } else { visible_end as int }).lines.len(),
            decreases total - index,
        {
            let row = grid.source(index);
            proof {
                lemma_row_le_prefix(src, index as int);
                assert forall|k: int| 0 <= k < src.len() implies row_width(#[trigger] src[k]) >= 0 by {
                    lemma_row_width_nonneg(src[k]);
                }
                lemma_project_column(src, index as int);
                lemma_project(src, index as int);
                lemma_prefix_width(src, total as int, index + 1);
            }
            let w = row.width();
            let ghost l0 = pairs_as_ints(lines@);
            let starts = row.is_canonical || lines.len() == 0;
            if starts {
                lines.push((index, index));
                column = 0;
                assert(pairs_as_ints(lines@) =~= l0.push((index as int, index as int)));
            }
            let ghost l1 = pairs_as_ints(lines@);
            let line = lines.len() - 1;
            let first = lines[line].0;
            lines.set(line, (first, index + 1));
            assert(pairs_as_ints(lines@) =~= l1.update(line as int, (first as int, index + 1)));
            origins.push((line, column));
            let ghost w0 = usizes_as_ints(widths@);
            widths.push(w);
            assert(usizes_as_ints(widths@) =~= w0.push(w as int));
            assert(src.take(index + 1).map_values(|r: RowModel| row_width(r)) =~= src.take(index as int).map_values(|r: RowModel| row_width(r)).push(row_width(src[index as int])));
            column = column + w;
            if index < visible_end {
                viewport_bottom = lines.len();
            }
            index += 1;
            proof {
                assert(pairs_as_ints(lines@) =~= project(src, index as int).lines);
                assert(pairs_as_ints(origins@) =~= project(src, index as int).origins);
                assert(usizes_as_ints(widths@) =~= src.take(index as int).map_values(|r: RowModel| row_width(r)));
            }
        }
        assert(src.take(index as int) =~= src);
        let first_visible = viewport_bottom.saturating_sub(grid.height);
        DisplayWrapProjection {
            lines,
            source_origins: origins,
            source_widths: widths,
            lines_above: grid.lines_above.len(),
            first_visible,
            height: grid.height,
        }
    }
}

/// The view's lines are ranges of rows, each row has its place in a line, and every size stays
/// within the limit.
pub open spec fn projection_fits(pv: ProjectionView) -> bool {
    &&& pv.widths.len() == pv.origins.len()
    &&& pv.widths.len() <= DISPLAY_WRAP_LIMIT
    &&& pv.lines.len() <= pv.widths.len()
    &&& 0 <= pv.lines_above <= pv.widths.len()
    &&& forall|l: int| 0 <= l < pv.lines.len() ==> 0 <= (#[trigger] pv.lines[l]).0 < pv.lines[l].1 <= pv.widths.len()
    &&& forall|j: int| 0 <= j < pv.origins.len() ==> 0 <= (#[trigger] pv.origins[j]).0 < pv.lines.len()
        && 0 <= pv.origins[j].1 <= DISPLAY_WRAP_LIMIT
    &&& forall|j: int| 0 <= j < pv.widths.len() ==> 0 <= #[trigger] pv.widths[j] <= DISPLAY_WRAP_LIMIT
    &&& 0 <= pv.first_visible <= DISPLAY_WRAP_LIMIT
    &&& 0 <= pv.height <= DISPLAY_WRAP_LIMIT
}

pub proof fn lemma_projection_fits(g: GridModel)
    requires
        grid_fits(g),
    ensures
        projection_fits(projection_of(g)),
{
    let src = sources(g);
    let n = src.len() as int;
    let pv = projection_of(g);
    assert forall|k: int| 0 <= k < src.len() implies row_width(#[trigger] src[k]) >= 0 by {
        lemma_row_width_nonneg(src[k]);
    }
    lemma_project(src, n);
    lemma_project_column(src, n);
    assert forall|j: int| 0 <= j < pv.origins.len() implies 0 <= (#[trigger] pv.origins[j]).1 <= DISPLAY_WRAP_LIMIT by {
        lemma_prefix_width(src, n, j);
    }
    assert forall|j: int| 0 <= j < pv.widths.len() implies 0 <= #[trigger] pv.widths[j] <= DISPLAY_WRAP_LIMIT by {
        lemma_row_le_prefix(src, j);
    }
    let k = (g.above.len() + g.viewport.len()) as int;
    lemma_project(src, k);
}

/// Where a position of the rows (a line counted from the top of the viewport, negative above
/// it) falls in the logical lines.
pub open spec fn buffer_to_logical(pv: ProjectionView, p: Position) -> Position {
    let index = p.line + pv.lines_above;
    if index < 0 {
        Position { line: index as isize, column: p.column }
    } else if index < pv.origins.len() {
        Position {
            line: pv.origins[index].0 as isize,
            column: (pv.origins[index].1 + p.column) as usize,
        }
    } else {
        Position { line: (pv.lines.len() + index - pv.widths.len()) as isize, column: p.column }
    }
}

/// The row of a logical line that holds column `column`: the first whose end is at or past it
/// (an exact wrap boundary stays with the row before), else the line's last row.
pub open spec fn first_fit(pv: ProjectionView, column: int, index: int, end: int) -> Position
    decreases end - index,
{
    if index >= end {
        Position { line: (index - pv.lines_above) as isize, column: 0 }
    } else {
        let origin = pv.origins[index].1;
        let c = if column >= origin { column - origin } else { 0 };
        if c <= pv.widths[index] || index + 1 == end {
            Position { line: (index - pv.lines_above) as isize, column: c as usize }
        } else {
            first_fit(pv, column, index + 1, end)
        }
    }
}

/// Where a position of the logical lines falls in the rows.
pub open spec fn logical_to_buffer(pv: ProjectionView, p: Position) -> Position {
    if p.line < 0 {
        Position { line: (p.line - pv.lines_above) as isize, column: p.column }
    } else if p.line >= pv.lines.len() {
        Position { line: (pv.widths.len() - pv.lines_above + p.line - pv.lines.len()) as isize, column: p.column }
    } else {
        first_fit(pv, p.column as int, pv.lines[p.line as int].0, pv.lines[p.line as int].1)
    }
}

/// A position within `k` times the limit of the origin.
pub open spec fn within(p: Position, k: int) -> bool {
    -(k * DISPLAY_WRAP_LIMIT) <= p.line <= k * DISPLAY_WRAP_LIMIT && p.column <= k * DISPLAY_WRAP_LIMIT
}

pub(crate) proof fn lemma_first_fit(pv: ProjectionView, column: int, index: int, end: int)
    requires
        projection_fits(pv),
        0 <= index,
        end <= pv.widths.len(),
        0 <= column,
    ensures
        -(DISPLAY_WRAP_LIMIT as int) <= first_fit(pv, column, index, end).line <= DISPLAY_WRAP_LIMIT
            || index >= end,
        first_fit(pv, column, index, end).column <= column,
    decreases end - index,
{
    if index < end {
        lemma_first_fit(pv, column, index + 1, end);
    }
}

impl DisplayWrapProjection {
    pub fn buffer_to_logical(&self, p: Position) -> (r: Position)
        requires
            projection_fits(self@),
            within(p, 8),
        ensures
            r == buffer_to_logical(self@, p),
            within(r, 10),
    {
        let index: isize = p.line + self.lines_above as isize;
        if index < 0 {
            return Position { line: index, column: p.column };
        }
        if (index as usize) < self.source_origins.len() {
            let origin = self.source_origins[index as usize];
            assert(self@.origins[index as int] == (origin.0 as int, origin.1 as int));
            return Position { line: origin.0 as isize, column: origin.1 + p.column };
        }
        let line = self.lines.len() as isize + index - self.source_widths.len() as isize;
        Position { line, column: p.column }
    }

    fn first_fit(&self, column: usize, index: usize, end: usize) -> (r: Position)
        requires
            projection_fits(self@),
            index < end <= self@.widths.len(),
            column <= 16 * DISPLAY_WRAP_LIMIT,
        ensures
            r == first_fit(self@, column as int, index as int, end as int),
    {
        let mut i = index;
        while i < end
            invariant
                projection_fits(self@),
                index <= i <= end,
                index < end,
                end <= self@.widths.len(),
                first_fit(self@, column as int, index as int, end as int) == first_fit(self@, column as int, i as int, end as int),
            decreases end - i,
        {
            assert(self@.origins[i as int].1 == self.source_origins@[i as int].1 as int);
            assert(self@.widths[i as int] == self.source_widths@[i as int] as int);
            let origin = self.source_origins[i].1;
            let c = column.saturating_sub(origin);
            if c <= self.source_widths[i] || i + 1 == end {
                return Position { line: i as isize - self.lines_above as isize, column: c };
            }
            i += 1;
        }
        Position { line: i as isize - self.lines_above as isize, column: 0 }
    }

    pub fn logical_to_buffer(&self, p: Position) -> (r: Position)
        requires
            projection_fits(self@),
            within(p, 14),
        ensures
            r == logical_to_buffer(self@, p),
            within(r, 16),
    {
        if p.line < 0 {
            return Position { line: p.line - self.lines_above as isize, column: p.column };
        }
        if p.line as usize >= self.lines.len() {
            let line = self.source_widths.len() as isize - self.lines_above as isize + p.line
                - self.lines.len() as isize;
            return Position { line, column: p.column };
        }
        let range = self.lines[p.line as usize];
        assert(self@.lines[p.line as int] == (range.0 as int, range.1 as int));
        proof {
            lemma_first_fit(self@, p.column as int, range.0 as int, range.1 as int);
        }
        self.first_fit(p.column, range.0, range.1)
    }
}

/// The display rows a row takes when wrapped at `width` cells, and the cells used on its last
/// display row, after its first `k` characters: a character that does not fit starts a new
/// display row.
pub open spec fn wrap_state(chars: Seq<TerminalChar>, width: int, k: int) -> (int, int)
    decreases k,
{
    if k <= 0 {
        (1, 0)
    } else {
        let (rows, column) = wrap_state(chars, width, k - 1);
        let w = chars[k - 1].width as int;
        if column + w > width {
            (rows + 1, w)
        } else {
            (rows, column + w)
        }
    }
}

pub open spec fn wrapped_rows(r: RowModel, width: int) -> int {
    wrap_state(r.chars, width, r.chars.len() as int).0
}

/// The display rows that the rows from `start` to `end` take when wrapped at `width` cells.
pub open spec fn wrapped_height(src: Seq<RowModel>, start: int, end: int, width: int) -> int
    decreases end - start,
{
    if start >= end {
        0
    } else {
        wrapped_rows(src[start], width) + wrapped_height(src, start + 1, end, width)
    }
}

pub(crate) proof fn lemma_wrap_state(chars: Seq<TerminalChar>, width: int, k: int)
    requires
        0 <= k <= chars.len(),
    ensures
        1 <= wrap_state(chars, width, k).0 <= k + 1,
        0 <= wrap_state(chars, width, k).1 <= chars_width(chars.take(k)),
    decreases k,
{
    if k > 0 {
        lemma_wrap_state(chars, width, k - 1);
        lemma_chars_width_take(chars, k - 1);
    } else {
        assert(chars.take(0) =~= Seq::<TerminalChar>::empty());
    }
}

proof fn lemma_wrapped_height(src: Seq<RowModel>, start: int, end: int, width: int)
    requires
        0 <= start <= end <= src.len(),
    ensures
        0 <= wrapped_height(src, start, end, width) <= (end - start) + prefix_chars(src, end) - prefix_chars(src, start),
    decreases end - start,
{
    if start < end {
        lemma_wrapped_height(src, start + 1, end, width);
        let r = src[start];
        lemma_wrap_state(r.chars, width, r.chars.len() as int);
        lemma_prefix_chars(src, start + 1, end);
        assert(prefix_chars(src, start + 1) == prefix_chars(src, start) + r.chars.len());
    }
}

/// The grid scrolled back by one row: the last row above the viewport enters it at the top,
/// and the bottom row leaves it when it overflows.
pub open spec fn scrolled_up(g: GridModel) -> GridModel {
    let vp = seq![g.above.last()] + g.viewport;
    if vp.len() > g.height {
        GridModel {
            above: g.above.drop_last(),
            viewport: vp.drop_last(),
            below: seq![vp.last()] + g.below,
            is_scrolled: true,
            ..g
        }
    } else {
        GridModel { above: g.above.drop_last(), viewport: vp, is_scrolled: true, ..g }
    }
}

/// The grid scrolled forward by one row: the first row below the viewport enters it at the
/// bottom, and the top row leaves it when it overflows.
pub open spec fn scrolled_down(g: GridModel) -> GridModel {
    let vp = g.viewport.push(g.below[0]);
    let below = g.below.drop_first();
    if vp.len() > g.height {
        GridModel {
            above: g.above.push(vp[0]),
            viewport: vp.drop_first(),
            below,
            is_scrolled: below.len() > 0,
            ..g
        }
    } else {
        GridModel { viewport: vp, below, is_scrolled: below.len() > 0, ..g }
    }
}

/// Scrolling back by up to `n` rows, stopping at the top.
pub open spec fn scrolled_up_by(g: GridModel, n: int) -> GridModel
    decreases n,
{
    if n <= 0 || g.above.len() == 0 {
        g
    } else {
        scrolled_up_by(scrolled_up(g), n - 1)
    }
}

/// Scrolling forward by up to `n` rows, stopping at the bottom.
pub open spec fn scrolled_down_by(g: GridModel, n: int) -> GridModel
    decreases n,
{
    if n <= 0 || g.below.len() == 0 {
        g
    } else {
        scrolled_down_by(scrolled_down(g), n - 1)
    }
}

/// Scrolling moves no row: the rows, top to bottom, stay as they were.
pub proof fn law_scrolling_keeps_the_rows(g: GridModel, n: int, up: bool)
    ensures
        sources(if up { scrolled_up_by(g, n) } else { scrolled_down_by(g, n) }) == sources(g),
        (if up { scrolled_up_by(g, n) } else { scrolled_down_by(g, n) }).height == g.height,
        (if up { scrolled_up_by(g, n) } else { scrolled_down_by(g, n) }).selection == g.selection,
        (if up { scrolled_up_by(g, n) } else { scrolled_down_by(g, n) }).command_output_flash == g.command_output_flash,
        (if up { scrolled_up_by(g, n) } else { scrolled_down_by(g, n) }).display_wrap_enabled == g.display_wrap_enabled,
        (if up { scrolled_up_by(g, n) } else { scrolled_down_by(g, n) }).alternate_screen == g.alternate_screen,
        (if up { scrolled_up_by(g, n) } else { scrolled_down_by(g, n) }).width == g.width,
    decreases n,
{
    if n > 0 {
        if up && g.above.len() > 0 {
            let h = scrolled_up(g);
            assert(sources(h) =~= sources(g));
            law_scrolling_keeps_the_rows(h, n - 1, up);
        } else if !up && g.below.len() > 0 {
            let h = scrolled_down(g);
            assert(sources(h) =~= sources(g));
            law_scrolling_keeps_the_rows(h, n - 1, up);
        }
    }
}

impl Grid {
    /// The display rows that the rows from `start` to `end` take when wrapped at the grid's
    /// width.
    fn wrapped_height(&self, start: usize, end: usize) -> (h: usize)
        requires
            grid_fits(self@),
            start <= end <= sources(self@).len(),
        ensures
            h == wrapped_height(sources(self@), start as int, end as int, self.width as int),
    {
        let ghost src = sources(self@);
        let mut total: usize = 0;
        let mut i: usize = start;
        proof {
            lemma_wrapped_height(src, start as int, end as int, self.width as int);
            lemma_prefix_chars(src, end as int, src.len() as int);
            lemma_prefix_chars(src, start as int, end as int);
        }
        while i < end
            invariant
                src == sources(self@),
                grid_fits(self@),
                start <= i <= end,
                end <= src.len(),
                total + wrapped_height(src, i as int, end as int, self.width as int) == wrapped_height(src, start as int, end as int, self.width as int),
                wrapped_height(src, start as int, end as int, self.width as int) <= 2 * DISPLAY_WRAP_LIMIT,
                0 <= wrapped_height(src, i as int, end as int, self.width as int),
            decreases end - i,
        {
            let row = self.source(i);
            proof {
                lemma_wrapped_height(src, i + 1, end as int, self.width as int);
                lemma_row_le_prefix(src, i as int);
                lemma_prefix_chars(src, i as int, end as int);
                lemma_prefix_chars(src, i + 1, end as int);
                lemma_prefix_chars(src, end as int, src.len() as int);
            }
            let mut rows: usize = 1;
            let mut column: usize = 0;
            let mut k: usize = 0;
            while k < row.columns.len()
                invariant
                    k <= row.columns@.len(),
                    (rows as int, column as int) == wrap_state(row.columns@, self.width as int, k as int),
                    row.columns@.len() <= DISPLAY_WRAP_LIMIT,
                    chars_width(row.columns@) <= DISPLAY_WRAP_LIMIT,
                decreases row.columns@.len() - k,
            {
                proof {
                    lemma_wrap_state(row.columns@, self.width as int, k as int);
                    lemma_chars_width_take(row.columns@, k as int);
                    lemma_chars_width_prefix(row.columns@, k + 1);
                }
                let w = row.columns[k].width;
                if column + w > self.width {
                    rows += 1;
                    column = w;
                } else {
                    column = column + w;
                }
                k += 1;
            }
            total = total + rows;
            i += 1;
        }
        total
    }

    fn scroll_up_one_line(&mut self)
        requires
            old(self).lines_above@.len() > 0,
        ensures
            final(self)@ == scrolled_up(old(self)@),
    {
        let ghost g = self@;
        let row = self.lines_above.pop().unwrap();
        self.viewport.insert(0, row);
        assert(row_models(self.viewport@) =~= seq![g.above.last()] + g.viewport);
        if self.viewport.len() > self.height {
            let bottom = self.viewport.pop().unwrap();
            self.lines_below.insert(0, bottom);
        }
        self.is_scrolled = true;
        assert(self@.above =~= scrolled_up(g).above);
        assert(self@.viewport =~= scrolled_up(g).viewport);
        assert(self@.below =~= scrolled_up(g).below);
    }

    fn scroll_down_one_line(&mut self)
        requires
            old(self).lines_below@.len() > 0,
        ensures
            final(self)@ == scrolled_down(old(self)@),
    {
        let ghost g = self@;
        let row = self.lines_below.remove(0);
        self.viewport.push(row);
        assert(row_models(self.viewport@) =~= g.viewport.push(g.below[0]));
        if self.viewport.len() > self.height {
            let top = self.viewport.remove(0);
            self.lines_above.push(top);
        }
        self.is_scrolled = self.lines_below.len() > 0;
        assert(self@.above =~= scrolled_down(g).above);
        assert(self@.viewport =~= scrolled_down(g).viewport);
        assert(self@.below =~= scrolled_down(g).below);
    }
}

pub open spec fn min_int(a: int, b: int) -> int {
    if a <= b { a } else { b }
}

pub open spec fn max_int(a: int, b: int) -> int {
    if a >= b { a } else { b }
}

/// The first logical line to show after scrolling `count` lines up (back) or down: it stops at
/// the first line, and at the last screenful.
pub open spec fn scroll_target(g: GridModel, count: int, up: bool) -> int {
    let pv = projection_of(g);
    let first = pv.first_visible;
    let n = pv.lines.len() as int;
    let max_first = if n >= g.height { n - g.height } else { 0 };
    if up {
        if first >= count { first - count } else { 0 }
    } else {
        min_int(first + count, max_first)
    }
}

/// The rows the grid scrolls by to show the target line: the display rows, wrapped at the
/// grid's width, between the end of the viewport and the end of the last logical line to show;
/// none when nothing moves. Scrolling down to the bottom also takes the hidden continuations of
/// the last line, so that pending output resumes.
pub open spec fn scroll_steps(g: GridModel, count: int, up: bool) -> int {
    let pv = projection_of(g);
    let first = pv.first_visible;
    let n = pv.lines.len() as int;
    let target = scroll_target(g, count, up);
    let target_end = min_int(target + g.height, n);
    let source_end = if target_end >= 1 { pv.lines[target_end - 1].1 } else { 0 };
    let viewport_end = (g.above.len() + g.viewport.len()) as int;
    let start = if up { min_int(source_end, viewport_end) } else { viewport_end };
    let end = if up { viewport_end } else { max_int(source_end, viewport_end) };
    if count == 0 || (up && target == first) {
        0
    } else {
        wrapped_height(sources(g), start, end, g.width as int)
    }
}

/// A position moved up by `dropped` lines.
pub open spec fn shifted(p: Position, dropped: int) -> Position {
    Position { line: (p.line - dropped) as isize, column: p.column }
}

/// The grid after scrolling by logical lines: the rows move by the scroll steps, the selection
/// and the flashed region stay anchored to their text, except that the moving end of an active
/// selection follows the mouse, that is, stays on the same display line; every line is to be
/// drawn again.
pub open spec fn unwrapped_scroll(g: GridModel, count: int, up: bool) -> GridModel {
    let pv = projection_of(g);
    let first = pv.first_visible;
    let steps = scroll_steps(g, count, up);
    let g2 = if up { scrolled_up_by(g, steps) } else { scrolled_down_by(g, steps) };
    let pv2 = projection_of(g2);
    let dropped = if pv.lines.len() >= pv2.lines.len() { pv.lines.len() - pv2.lines.len() } else { 0 };
    let sel = map_selection(g.selection, |p: Position| shifted(buffer_to_logical(pv, p), dropped));
    let sel2 = if sel.active && steps > 0 {
        Selection {
            end: Position {
                line: (sel.end.line + pv2.first_visible - first + dropped) as isize,
                column: sel.end.column,
            },
            ..sel
        }
    } else {
        sel
    };
    GridModel {
        selection: map_selection(sel2, |p: Position| logical_to_buffer(pv2, p)),
        command_output_flash: match g.command_output_flash {
            None => None,
            Some(f) => Some(map_selection(f, |p: Position| logical_to_buffer(pv2, shifted(buffer_to_logical(pv, p), dropped)))),
        },
        all_lines_changed: true,
        ..g2
    }
}

impl DisplayWrapProjection {
    pub(crate) fn selection_to_logical(&self, s: Selection) -> (r: Selection)
        requires
            projection_fits(self@),
            within(s.start, 8),
            within(s.end, 8),
        ensures
            r == map_selection(s, |p: Position| buffer_to_logical(self@, p)),
            within(r.start, 10),
            within(r.end, 10),
    {
        Selection { start: self.buffer_to_logical(s.start), end: self.buffer_to_logical(s.end), active: s.active }
    }

    fn selection_to_buffer(&self, s: Selection) -> (r: Selection)
        requires
            projection_fits(self@),
            within(s.start, 14),
            within(s.end, 14),
        ensures
            r == map_selection(s, |p: Position| logical_to_buffer(self@, p)),
    {
        Selection { start: self.logical_to_buffer(s.start), end: self.logical_to_buffer(s.end), active: s.active }
    }
}

fn shift_position(p: Position, dropped: isize) -> (r: Position)
    requires
        within(p, 10),
        0 <= dropped <= DISPLAY_WRAP_LIMIT,
    ensures
        r == shifted(p, dropped as int),
        within(r, 11),
{
    Position { line: p.line - dropped, column: p.column }
}

impl Grid {
    fn scroll_steps(&self, projection: &DisplayWrapProjection, count: usize, up: bool) -> (steps: usize)
        requires
            grid_fits(self@),
            projection@ == projection_of(self@),
            projection_fits(projection@),
        ensures
            steps == scroll_steps(self@, count as int, up),
    {
        let ghost pv = projection@;
        let first = projection.first_visible;
        let n = projection.lines.len();
        let max_first = n.saturating_sub(self.height);
        let target = if up {
            first.saturating_sub(count)
        } else {
            let ahead = first.saturating_add(count);
            if ahead <= max_first { ahead } else { max_first }
        };
        assert(target == scroll_target(self@, count as int, up));
        let reach = target + self.height;
        let target_end = if reach <= n { reach } else { n };
        let source_end = if target_end >= 1 {
            assert(pv.lines[target_end - 1] == (projection.lines@[target_end - 1].0 as int, projection.lines@[target_end - 1].1 as int));
            projection.lines[target_end - 1].1
        } else {
            0
        };
        let viewport_end = self.lines_above.len() + self.viewport.len();
        let range_start = if up {
            if source_end <= viewport_end { source_end } else { viewport_end }
        } else {
            viewport_end
        };
        let range_end = if up {
            viewport_end
        } else {
            if source_end >= viewport_end { source_end } else { viewport_end }
        };
        if count == 0 || (up && target == first) {
            0
        } else {
            self.wrapped_height(range_start, range_end)
        }
    }

    /// Scrolls by `count` logical lines, up (back) or down, keeping the selection and the
    /// flashed region anchored to their text. False, and nothing changes, when the grid shows
    /// wrapped rows: then the ordinary scrolling applies.
    #[verifier::rlimit(100)]
    pub fn scroll_unwrapped_lines(&mut self, count: usize, up: bool) -> (r: bool)
        requires
            !old(self).display_wrap_enabled && !old(self).alternate_screen ==> grid_fits(old(self)@),
        ensures
            !old(self).display_wrap_enabled && !old(self).alternate_screen ==> r && final(self)@ == unwrapped_scroll(old(self)@, count as int, up),
            old(self).display_wrap_enabled || old(self).alternate_screen ==> !r && final(self)@ == old(self)@,
    {
        if !self.uses_unwrapped_display() {
            return false;
        }
        let ghost g0 = self@;
        proof {
            lemma_projection_fits(g0);
        }
        let projection = DisplayWrapProjection::new(self);
        let first = projection.first_visible;
        let n = projection.lines.len();
        let steps = self.scroll_steps(&projection, count, up);
        let line_count = n;
        let selection = projection.selection_to_logical(self.selection);
        let flash = match self.command_output_flash {
            Some(f) => Some(projection.selection_to_logical(f)),
            None => None,
        };
        let mut k: usize = 0;
        let mut done = false;
        while k < steps && !done
            invariant
                k <= steps,
                up ==> scrolled_up_by(g0, steps as int) == scrolled_up_by(self@, steps - k),
                !up ==> scrolled_down_by(g0, steps as int) == scrolled_down_by(self@, steps - k),
                done ==> (up ==> self@ == scrolled_up_by(self@, steps - k)) && (!up ==> self@ == scrolled_down_by(self@, steps - k)),
            decreases (steps - k) * 2 + if done { 0int } else { 1int },
        {
            if up {
                if self.lines_above.len() == 0 {
                    done = true;
                } else {
                    self.scroll_up_one_line();
                    k += 1;
                }
            } else {
                if self.lines_below.len() == 0 {
                    done = true;
                } else {
                    self.scroll_down_one_line();
                    k += 1;
                }
            }
        }
        let ghost g2 = self@;
        proof {
            law_scrolling_keeps_the_rows(g0, steps as int, up);
            assert(g2 == if up { scrolled_up_by(g0, steps as int) } else { scrolled_down_by(g0, steps as int) });
            lemma_projection_fits(g2);
        }
        let projection2 = DisplayWrapProjection::new(self);
        let dropped_lines = line_count.saturating_sub(projection2.lines.len());
        let dropped = dropped_lines as isize;
        let mut selection = Selection {
            start: shift_position(selection.start, dropped),
            end: shift_position(selection.end, dropped),
            active: selection.active,
        };
        if selection.active && steps > 0 {
            let line = selection.end.line + projection2.first_visible as isize - first as isize + dropped;
            selection = Selection { end: Position { line, column: selection.end.column }, ..selection };
        }
        let selection = projection2.selection_to_buffer(selection);
        let flash = match flash {
            Some(f) => Some(projection2.selection_to_buffer(Selection {
                start: shift_position(f.start, dropped),
                end: shift_position(f.end, dropped),
                active: f.active,
            })),
            None => None,
        };
        self.selection = selection;
        self.command_output_flash = flash;
        self.all_lines_changed = true;
        true
    }
}

/// A display position (a line counted from the top of what is shown) in the rows.
pub open spec fn display_to_buffer(pv: ProjectionView, p: Position) -> Position {
    logical_to_buffer(pv, Position { line: (p.line + pv.first_visible) as isize, column: p.column })
}

/// A position of the rows on the display.
pub open spec fn buffer_to_display(pv: ProjectionView, p: Position) -> Position {
    let l = buffer_to_logical(pv, p);
    Position { line: (l.line - pv.first_visible) as isize, column: l.column }
}

impl DisplayWrapProjection {
    pub fn display_to_buffer(&self, p: Position) -> (r: Position)
        requires
            projection_fits(self@),
            within(p, 12),
        ensures
            r == display_to_buffer(self@, p),
    {
        self.logical_to_buffer(Position { line: p.line + self.first_visible as isize, column: p.column })
    }

    pub fn buffer_to_display(&self, p: Position) -> (r: Position)
        requires
            projection_fits(self@),
            within(p, 8),
        ensures
            r == buffer_to_display(self@, p),
    {
        let l = self.buffer_to_logical(p);
        Position { line: l.line - self.first_visible as isize, column: l.column }
    }

    /// How far back the view is scrolled, and how far back it can go, in logical lines.
    pub fn scrollback_position_and_length(&self) -> (r: (usize, usize))
        requires
            projection_fits(self@),
        ensures
            r.1 == (if self@.lines.len() >= self@.height { self@.lines.len() - self@.height } else { 0 }),
            r.0 == (if r.1 >= self@.first_visible { r.1 - self@.first_visible } else { 0 }),
    {
        let length = self.lines.len().saturating_sub(self.height);
        (length.saturating_sub(self.first_visible), length)
    }

    /// Where the cursor at column `x` of row `y` of the viewport shows, when it shows at all.
    pub fn cursor_coordinates(&self, x: usize, y: usize) -> (r: Option<(usize, usize)>)
        requires
            projection_fits(self@),
            x <= 4 * DISPLAY_WRAP_LIMIT,
            y <= 4 * DISPLAY_WRAP_LIMIT,
        ensures
            ({
                let c = buffer_to_display(self@, Position { line: y as isize, column: x });
                r == if 0 <= c.line < self@.height { Some((c.column, c.line as usize)) } else { None::<(usize, usize)> }
            }),
    {
        let cursor = self.buffer_to_display(Position { line: y as isize, column: x });
        if cursor.line >= 0 && cursor.line < self.height as isize {
            Some((cursor.column, cursor.line as usize))
        } else {
            None
        }
    }

}

impl Grid {
    /// A display position of the mouse in the rows: through the logical lines when they show
    /// unwrapped, as it is otherwise.
    pub fn display_position_to_buffer(&self, position: Position) -> (r: Position)
        requires
            !self.display_wrap_enabled && !self.alternate_screen ==> grid_fits(self@) && within(position, 12),
        ensures
            !self.display_wrap_enabled && !self.alternate_screen ==> r == display_to_buffer(projection_of(self@), position),
            self.display_wrap_enabled || self.alternate_screen ==> r == position,
    {
        if self.uses_unwrapped_display() {
            proof {
                lemma_projection_fits(self@);
            }
            DisplayWrapProjection::new(self).display_to_buffer(position)
        } else {
            position
        }
    }
}

} // verus!
