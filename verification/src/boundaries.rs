use vstd::prelude::*;
use crate::geom::Viewport;
use crate::boundary_symbol::{
    BoundarySymbol, BoundaryType, RankedColor, TerminalCell, combinable, combine_symbols,
    combined_symbol, symbol_cell, without_horizontal,
};
use crate::boundary_map::{BoundaryMap, Coordinates, SymbolUpdate};

verus! {

/// What boundary drawing needs to know of a pane.
#[derive(Clone, Copy, Debug, PartialEq, Eq, Structural)]
pub struct PaneRect {
    pub x: usize,
    pub y: usize,
    pub cols: usize,
    pub rows: usize,
    pub is_stacked: bool,
    pub content_offset_bottom: usize,
}

/// The boundary glyphs of the panes of a viewport.
pub struct Boundaries {
    pub viewport: Viewport,
    pub boundary_characters: BoundaryMap,
}

/// A cell and the symbol drawn into it.
pub type Cell = (Coordinates, BoundarySymbol);

/// Every symbol in the map is a basic glyph.
pub open spec fn all_basic(m: Map<Coordinates, BoundarySymbol>) -> bool {
    forall|k: Coordinates| #[trigger] m.dom().contains(k) ==> m[k].boundary_type.is_basic()
}

/// The cells about to be drawn hold basic glyphs, where they hold any.
pub open spec fn drawn_on_basic(m: Map<Coordinates, BoundarySymbol>, cells: Seq<Cell>) -> bool {
    forall|i: int|
        0 <= i < cells.len() && #[trigger] m.dom().contains(cells[i].0) ==> m[cells[i].0].boundary_type.is_basic()
}

/// Drawing one symbol into a cell: it merges with the symbol already there, if any.
pub open spec fn merge_cell(m: Map<Coordinates, BoundarySymbol>, cell: Cell) -> Map<
    Coordinates,
    BoundarySymbol,
> {
    m.insert(
        cell.0,
        if m.dom().contains(cell.0) {
            combined_symbol(m[cell.0], cell.1)
        } else {
            cell.1
        },
    )
}

/// Drawing a sequence of symbols, in order.
pub open spec fn merge_cells(m: Map<Coordinates, BoundarySymbol>, cells: Seq<Cell>) -> Map<
    Coordinates,
    BoundarySymbol,
>
    decreases cells.len(),
{
    if cells.len() == 0 {
        m
    } else {
        merge_cell(merge_cells(m, cells.drop_last()), cells.last())
    }
}

/// A glyph drawn in a colour.
pub open spec fn colored(t: BoundaryType, color: Option<RankedColor>) -> BoundarySymbol {
    BoundarySymbol { boundary_type: t, invisible: false, color }
}

/// The number of values in `start..end`.
pub open spec fn span(start: int, end: int) -> nat {
    if end > start {
        (end - start) as nat
    } else {
        0
    }
}

pub open spec fn fully_inside(v: Viewport, r: PaneRect) -> bool {
    &&& r.x >= v.x
    &&& r.x + r.cols <= v.x + v.cols
    &&& r.y >= v.y
    &&& r.y + r.rows <= v.y + v.rows
}

/// The first line of the side boundaries: one above the pane for a framed pane, at the pane
/// for a stacked one, and lower by the content offset for one stacked under the flexible pane.
pub open spec fn side_row_start(v: Viewport, r: PaneRect, stacked_under: bool) -> int {
    let offset: int = if stacked_under {
        r.content_offset_bottom as int
    } else if r.is_stacked {
        0
    } else {
        1
    };
    if r.y > v.y {
        if r.y >= offset {
            r.y - offset
        } else {
            0
        }
    } else {
        v.y as int
    }
}

pub open spec fn side_row_end(r: PaneRect) -> int {
    r.y + r.rows
}

pub open spec fn edge_col_start(r: PaneRect) -> int {
    if r.x == 0 {
        0
    } else {
        r.x - 1
    }
}

pub open spec fn edge_col_end(r: PaneRect) -> int {
    r.x + r.cols
}

pub open spec fn left_type(v: Viewport, r: PaneRect, first: int, last: int, row: int) -> BoundaryType {
    if row == first && row != v.y {
        if r.is_stacked {
            BoundaryType::VerticalRight
        } else {
            BoundaryType::TopLeft
        }
    } else if row == first && r.is_stacked {
        BoundaryType::TopLeft
    } else if row == last - 1 && row + 1 != v.y + v.rows && r.content_offset_bottom > 0 {
        BoundaryType::BottomLeft
    } else {
        BoundaryType::Vertical
    }
}

pub open spec fn right_type(v: Viewport, r: PaneRect, first: int, last: int, row: int) -> BoundaryType {
    if row == first && r.is_stacked {
        BoundaryType::VerticalLeft
    } else if row == first && row != v.y {
        BoundaryType::TopRight
    } else if row == last - 1 && row + 1 != v.y + v.rows && r.content_offset_bottom > 0 {
        BoundaryType::BottomRight
    } else {
        BoundaryType::Vertical
    }
}

pub open spec fn top_type(v: Viewport, first: int, last: int, col: int) -> BoundaryType {
    if col == first && col != v.x {
        BoundaryType::TopLeft
    } else if col == last - 1 && col + 1 != v.cols {
        BoundaryType::TopRight
    } else {
        BoundaryType::Horizontal
    }
}

pub open spec fn bottom_type(v: Viewport, first: int, last: int, col: int) -> BoundaryType {
    if col == first && col != v.x {
        BoundaryType::BottomLeft
    } else if col == last - 1 && col + 1 != v.cols {
        BoundaryType::BottomRight
    } else {
        BoundaryType::Horizontal
    }
}

/// The cells of the left boundary, drawn when the pane does not touch the viewport's left edge.
pub open spec fn left_cells(
    v: Viewport,
    r: PaneRect,
    color: Option<RankedColor>,
    stacked_under: bool,
) -> Seq<Cell> {
    let first = side_row_start(v, r, stacked_under);
    let last = side_row_end(r);
    if r.x > v.x {
        Seq::new(
            span(first, last),
            |i: int|
                (
                    Coordinates { x: (r.x - 1) as usize, y: (first + i) as usize },
                    colored(left_type(v, r, first, last, first + i), color),
                ),
        )
    } else {
        Seq::empty()
    }
}

/// The cells of the right boundary, drawn when the pane ends before the display's width.
pub open spec fn right_cells(
    v: Viewport,
    r: PaneRect,
    color: Option<RankedColor>,
    stacked_under: bool,
) -> Seq<Cell> {
    let first = side_row_start(v, r, stacked_under);
    let last = side_row_end(r);
    if r.x + r.cols < v.cols {
        Seq::new(
            span(first, last),
            |i: int|
                (
                    Coordinates { x: (r.x + r.cols - 1) as usize, y: (first + i) as usize },
                    colored(right_type(v, r, first, last, first + i), color),
                ),
        )
    } else {
        Seq::empty()
    }
}

/// The cells of the top boundary, drawn below the viewport's top edge unless the pane is
/// stacked below the top of its stack.
pub open spec fn top_cells(
    v: Viewport,
    r: PaneRect,
    color: Option<RankedColor>,
    on_top_of_stack: bool,
) -> Seq<Cell> {
    let first = edge_col_start(r);
    let last = edge_col_end(r);
    if r.y > v.y && !(r.is_stacked && !on_top_of_stack) {
        Seq::new(
            span(first, last),
            |i: int|
                (
                    Coordinates { x: (first + i) as usize, y: (r.y - 1) as usize },
                    colored(top_type(v, first, last, first + i), color),
                ),
        )
    } else {
        Seq::empty()
    }
}

/// The cells of the bottom boundary, drawn above the viewport's bottom edge unless the pane is
/// stacked above the bottom of its stack.
pub open spec fn bottom_cells(
    v: Viewport,
    r: PaneRect,
    color: Option<RankedColor>,
    on_bottom_of_stack: bool,
) -> Seq<Cell> {
    let first = edge_col_start(r);
    let last = edge_col_end(r);
    if r.y + r.rows < v.y + v.rows && !(r.is_stacked && !on_bottom_of_stack) {
        Seq::new(
            span(first, last),
            |i: int|
                (
                    Coordinates { x: (first + i) as usize, y: (r.y + r.rows - 1) as usize },
                    colored(bottom_type(v, first, last, first + i), color),
                ),
        )
    } else {
        Seq::empty()
    }
}

/// All the cells a pane's boundary draws, in drawing order: left, top, right, bottom; none
/// for a pane that is not fully inside the viewport.
pub open spec fn rect_cells(
    v: Viewport,
    r: PaneRect,
    color: Option<RankedColor>,
    on_top_of_stack: bool,
    on_bottom_of_stack: bool,
    stacked_under: bool,
) -> Seq<Cell> {
    if fully_inside(v, r) {
        left_cells(v, r, color, stacked_under) + top_cells(v, r, color, on_top_of_stack)
            + right_cells(v, r, color, stacked_under) + bottom_cells(
            v,
            r,
            color,
            on_bottom_of_stack,
        )
    } else {
        Seq::empty()
    }
}

pub proof fn lemma_merge_cells_step(m: Map<Coordinates, BoundarySymbol>, s: Seq<Cell>, k: int)
    requires
        0 <= k < s.len(),
    ensures
        merge_cells(m, s.take(k + 1)) == merge_cell(merge_cells(m, s.take(k)), s[k]),
{
    assert(s.take(k + 1).drop_last() =~= s.take(k));
}

/// Taking the horizontal strokes out of one cell.
pub open spec fn strip_cell(m: Map<Coordinates, BoundarySymbol>, c: Coordinates) -> Map<
    Coordinates,
    BoundarySymbol,
> {
    if m.dom().contains(c) {
        match without_horizontal(m[c]) {
            Some(t) => m.insert(c, t),
            None => m.remove(c),
        }
    } else {
        m
    }
}

/// Taking the horizontal strokes out of a sequence of cells, in order.
pub open spec fn strip_cells(m: Map<Coordinates, BoundarySymbol>, cells: Seq<Coordinates>) -> Map<
    Coordinates,
    BoundarySymbol,
>
    decreases cells.len(),
{
    if cells.len() == 0 {
        m
    } else {
        strip_cell(strip_cells(m, cells.drop_last()), cells.last())
    }
}

/// What a map holds at a cell, if anything.
pub open spec fn held_at(m: Map<Coordinates, BoundarySymbol>, k: Coordinates) -> Option<BoundarySymbol> {
    if m.dom().contains(k) { Some(m[k]) } else { None }
}

/// What is left at a cell once its horizontal strokes are taken out.
pub open spec fn stripped_at(m: Map<Coordinates, BoundarySymbol>, k: Coordinates) -> Option<BoundarySymbol> {
    if m.dom().contains(k) { without_horizontal(m[k]) } else { None }
}

proof fn lemma_without_horizontal_twice(s: BoundarySymbol)
    ensures
        without_horizontal(s) matches Some(t) ==> without_horizontal(t) == Some(t),
{
}

proof fn lemma_strip_cells_at(m: Map<Coordinates, BoundarySymbol>, cells: Seq<Coordinates>, k: Coordinates)
    ensures
        held_at(strip_cells(m, cells), k) == if cells.contains(k) { stripped_at(m, k) } else { held_at(m, k) },
    decreases cells.len(),
{
    if cells.len() > 0 {
        let prefix = cells.drop_last();
        let c = cells.last();
        lemma_strip_cells_at(m, prefix, k);
        let before = strip_cells(m, prefix);
        if k == c {
            assert(cells.contains(k)) by {
                assert(cells[cells.len() - 1] == k);
            }
            if prefix.contains(k) {
                if m.dom().contains(k) {
                    lemma_without_horizontal_twice(m[k]);
                }
            }
        } else {
            assert(cells.contains(k) == prefix.contains(k)) by {
                if cells.contains(k) {
                    let i = choose|i: int| 0 <= i < cells.len() && cells[i] == k;
                    assert(prefix[i] == k);
                }
                if prefix.contains(k) {
                    let i = choose|i: int| 0 <= i < prefix.len() && prefix[i] == k;
                    assert(cells[i] == k);
                }
            }
        }
    }
}

/// Taking the horizontal strokes out of the same cells twice leaves what taking them out once
/// leaves, and cells outside those touched stay as they were.
pub proof fn law_stripping_segments_is_idempotent_and_local(
    m: Map<Coordinates, BoundarySymbol>,
    segments: Seq<(usize, usize, usize)>,
)
    ensures
        strip_cells(strip_cells(m, segments_cells(segments)), segments_cells(segments))
            == strip_cells(m, segments_cells(segments)),
        forall|k: Coordinates| !segments_cells(segments).contains(k)
            ==> #[trigger] held_at(strip_cells(m, segments_cells(segments)), k) == held_at(m, k),
{
    let cells = segments_cells(segments);
    let once = strip_cells(m, cells);
    let twice = strip_cells(once, cells);
    assert forall|k: Coordinates| #[trigger] held_at(twice, k) == held_at(once, k) by {
        lemma_strip_cells_at(m, cells, k);
        lemma_strip_cells_at(once, cells, k);
        if m.dom().contains(k) {
            lemma_without_horizontal_twice(m[k]);
        }
    }
    assert forall|k: Coordinates| !cells.contains(k) implies #[trigger] held_at(once, k) == held_at(m, k) by {
        lemma_strip_cells_at(m, cells, k);
    }
    assert(twice =~= once) by {
        assert forall|k: Coordinates| twice.dom().contains(k) <==> once.dom().contains(k) by {
            assert(held_at(twice, k) == held_at(once, k));
        }
        assert forall|k: Coordinates| twice.dom().contains(k) implies twice[k] == once[k] by {
            assert(held_at(twice, k) == held_at(once, k));
        }
    }
}

/// The cells of a segment `(x, y, width)`: line `y` from column `x` on, `width` columns wide
/// (stopping at the largest column).
pub open spec fn segment_cells(segment: (usize, usize, usize)) -> Seq<Coordinates> {
    let (x, y, width) = segment;
    let end = x.saturating_add(width);
    Seq::new(span(x as int, end as int), |i: int| Coordinates { x: (x + i) as usize, y })
}

/// The cells of a list of segments, in order.
pub open spec fn segments_cells(segments: Seq<(usize, usize, usize)>) -> Seq<Coordinates>
    decreases segments.len(),
{
    if segments.len() == 0 {
        Seq::empty()
    } else {
        segments_cells(segments.drop_last()) + segment_cells(segments.last())
    }
}

pub proof fn lemma_strip_cells_append(
    m: Map<Coordinates, BoundarySymbol>,
    a: Seq<Coordinates>,
    b: Seq<Coordinates>,
)
    ensures
        strip_cells(m, a + b) == strip_cells(strip_cells(m, a), b),
    decreases b.len(),
{
    if b.len() == 0 {
        assert(a + b =~= a);
    } else {
        assert((a + b).drop_last() =~= a + b.drop_last());
        lemma_strip_cells_append(m, a, b.drop_last());
    }
}

/// A boundary cell as rendered: where it goes and what is drawn there.
#[derive(Clone, Copy, Debug, PartialEq, Eq, Structural)]
pub struct BoundaryChunk {
    pub x: usize,
    pub y: usize,
    pub cell: TerminalCell,
}

/// The cell already shows this very symbol on screen.
pub open spec fn already_on_screen(
    existing: Option<Map<Coordinates, BoundarySymbol>>,
    k: Coordinates,
    s: BoundarySymbol,
) -> bool {
    match existing {
        Some(e) => e.dom().contains(k) && e[k] == s,
        None => false,
    }
}

/// The sizes of the viewport and the pane add up without overflow.
pub open spec fn rect_fits(v: Viewport, r: PaneRect) -> bool {
    &&& r.x + r.cols <= usize::MAX
    &&& r.y + r.rows <= usize::MAX
    &&& v.x + v.cols <= usize::MAX
    &&& v.y + v.rows <= usize::MAX
}

fn left_type_exec(v: &Viewport, r: &PaneRect, first: usize, last: usize, row: usize) -> (t:
    BoundaryType)
    requires
        first <= row < last,
        v.y + v.rows <= usize::MAX,
    ensures
        t == left_type(*v, *r, first as int, last as int, row as int),
{
    if row == first && row != v.y {
        if r.is_stacked {
            BoundaryType::VerticalRight
        } else {
            BoundaryType::TopLeft
        }
    } else if row == first && r.is_stacked {
        BoundaryType::TopLeft
    } else if row == last - 1 && row + 1 != v.y + v.rows && r.content_offset_bottom > 0 {
        BoundaryType::BottomLeft
    } else {
        BoundaryType::Vertical
    }
}

fn right_type_exec(v: &Viewport, r: &PaneRect, first: usize, last: usize, row: usize) -> (t:
    BoundaryType)
    requires
        first <= row < last,
        v.y + v.rows <= usize::MAX,
    ensures
        t == right_type(*v, *r, first as int, last as int, row as int),
{
    if row == first && r.is_stacked {
        BoundaryType::VerticalLeft
    } else if row == first && row != v.y {
        BoundaryType::TopRight
    } else if row == last - 1 && row + 1 != v.y + v.rows && r.content_offset_bottom > 0 {
        BoundaryType::BottomRight
    } else {
        BoundaryType::Vertical
    }
}

fn horizontal_type_exec(v: &Viewport, first: usize, last: usize, col: usize, top: bool) -> (t:
    BoundaryType)
    requires
        first <= col < last,
    ensures
        top ==> t == top_type(*v, first as int, last as int, col as int),
        !top ==> t == bottom_type(*v, first as int, last as int, col as int),
{
    if col == first && col != v.x {
        if top {
            BoundaryType::TopLeft
        } else {
            BoundaryType::BottomLeft
        }
    } else if col == last - 1 && (col as u128) + 1 != (v.cols as u128) {
        if top {
            BoundaryType::TopRight
        } else {
            BoundaryType::BottomRight
        }
    } else {
        BoundaryType::Horizontal
    }
}

/// The cells of one vertical side, at column `x`.
fn vertical_side(
    b: &Boundaries,
    r: &PaneRect,
    color: Option<RankedColor>,
    stacked_under: bool,
    x: usize,
    left: bool,
) -> (cells: Vec<Cell>)
    requires
        rect_fits(b.viewport, *r),
        left ==> r.x > b.viewport.x && x == r.x - 1,
        !left ==> r.x + r.cols < b.viewport.cols && x == r.x + r.cols - 1,
    ensures
        left ==> cells@ == left_cells(b.viewport, *r, color, stacked_under),
        !left ==> cells@ == right_cells(b.viewport, *r, color, stacked_under),
{
    let v = &b.viewport;
    let first = b.rect_right_boundary_row_start(r, stacked_under);
    let last = b.rect_right_boundary_row_end(r);
    let ghost expected = if left {
        left_cells(*v, *r, color, stacked_under)
    } else {
        right_cells(*v, *r, color, stacked_under)
    };
    let mut cells: Vec<Cell> = Vec::new();
    let mut row = first;
    while row < last
        invariant
            first <= row,
            first < last ==> row <= last,
            first >= last ==> row == first,
            first == side_row_start(*v, *r, stacked_under),
            last == side_row_end(*r),
            rect_fits(*v, *r),
            expected.len() == span(first as int, last as int),
            cells@ == expected.take(row - first),
            left ==> expected == left_cells(*v, *r, color, stacked_under),
            !left ==> expected == right_cells(*v, *r, color, stacked_under),
            left ==> r.x > v.x && x == r.x - 1,
            !left ==> r.x + r.cols < v.cols && x == r.x + r.cols - 1,
        decreases last - row,
    {
        let t = if left {
            left_type_exec(v, r, first, last, row)
        } else {
            right_type_exec(v, r, first, last, row)
        };
        let symbol = BoundarySymbol { boundary_type: t, invisible: false, color };
        cells.push((Coordinates::new(x, row), symbol));
        proof {
            let i = row - first;
            assert(expected[i as int] == (Coordinates { x, y: row }, symbol));
            assert(cells@ =~= expected.take(i + 1));
        }
        row += 1;
    }
    assert(row - first == expected.len());
    assert(expected.take(row - first) =~= expected);
    cells
}

/// The cells of one horizontal side, at line `y`.
fn horizontal_side(
    b: &Boundaries,
    r: &PaneRect,
    color: Option<RankedColor>,
    on_edge_of_stack: bool,
    y: usize,
    top: bool,
) -> (cells: Vec<Cell>)
    requires
        rect_fits(b.viewport, *r),
        top ==> r.y > b.viewport.y && !(r.is_stacked && !on_edge_of_stack) && y == r.y - 1,
        !top ==> r.y + r.rows < b.viewport.y + b.viewport.rows && !(r.is_stacked && !on_edge_of_stack) && y == r.y
            + r.rows - 1,
    ensures
        top ==> cells@ == top_cells(b.viewport, *r, color, on_edge_of_stack),
        !top ==> cells@ == bottom_cells(b.viewport, *r, color, on_edge_of_stack),
{
    let v = &b.viewport;
    let first = b.rect_bottom_boundary_col_start(r);
    let last = b.rect_bottom_boundary_col_end(r);
    let ghost expected = if top {
        top_cells(*v, *r, color, on_edge_of_stack)
    } else {
        bottom_cells(*v, *r, color, on_edge_of_stack)
    };
    let mut cells: Vec<Cell> = Vec::new();
    let mut col = first;
    while col < last
        invariant
            first <= col,
            first < last ==> col <= last,
            first >= last ==> col == first,
            first == edge_col_start(*r),
            last == edge_col_end(*r),
            rect_fits(*v, *r),
            expected.len() == span(first as int, last as int),
            cells@ == expected.take(col - first),
            top ==> expected == top_cells(*v, *r, color, on_edge_of_stack),
            !top ==> expected == bottom_cells(*v, *r, color, on_edge_of_stack),
            top ==> r.y > v.y && !(r.is_stacked && !on_edge_of_stack) && y == r.y - 1,
            !top ==> r.y + r.rows < v.y + v.rows && !(r.is_stacked && !on_edge_of_stack) && y
                == r.y + r.rows - 1,
        decreases last - col,
    {
        let t = horizontal_type_exec(v, first, last, col, top);
        let symbol = BoundarySymbol { boundary_type: t, invisible: false, color };
        cells.push((Coordinates::new(col, y), symbol));
        proof {
            let i = col - first;
            assert(expected[i as int] == (Coordinates { x: col, y }, symbol));
            assert(cells@ =~= expected.take(i + 1));
        }
        col += 1;
    }
    assert(col - first == expected.len());
    assert(expected.take(col - first) =~= expected);
    cells
}

impl Boundaries {
    pub open spec fn wf(&self) -> bool {
        self.boundary_characters.wf()
    }

    pub fn new(viewport: Viewport) -> (b: Self)
        ensures
            b.wf(),
            b.viewport == viewport,
            b.boundary_characters@ == Map::<Coordinates, BoundarySymbol>::empty(),
    {
        Boundaries { viewport, boundary_characters: BoundaryMap::new() }
    }

    /// Whether the pane's right boundary lies before the right edge of the viewport.
    fn rect_right_boundary_is_before_screen_edge(&self, rect: &PaneRect) -> (r: bool)
        requires
            rect.x + rect.cols <= usize::MAX,
        ensures
            r == (rect.x + rect.cols < self.viewport.cols),
    {
        rect.x + rect.cols < self.viewport.cols
    }

    /// Whether the pane's bottom boundary lies above the bottom edge of the viewport.
    fn rect_bottom_boundary_is_before_screen_edge(&self, rect: &PaneRect) -> (r: bool)
        requires
            rect_fits(self.viewport, *rect),
        ensures
            r == (rect.y + rect.rows < self.viewport.y + self.viewport.rows),
    {
        rect.y + rect.rows < self.viewport.y + self.viewport.rows
    }

    /// The first line of the pane's side boundaries.
    fn rect_right_boundary_row_start(&self, rect: &PaneRect, pane_is_stacked_under: bool) -> (first:
        usize)
        ensures
            first == side_row_start(self.viewport, *rect, pane_is_stacked_under),
    {
        let horizontal_frame_offset: usize = if pane_is_stacked_under {
            rect.content_offset_bottom
        } else if rect.is_stacked {
            0
        } else {
            1
        };
        if rect.y > self.viewport.y {
            rect.y.saturating_sub(horizontal_frame_offset)
        } else {
            self.viewport.y
        }
    }

    /// The line past the pane's side boundaries.
    fn rect_right_boundary_row_end(&self, rect: &PaneRect) -> (end: usize)
        requires
            rect.y + rect.rows <= usize::MAX,
        ensures
            end == side_row_end(*rect),
    {
        rect.y + rect.rows
    }

    /// The first column of the pane's top and bottom boundaries.
    fn rect_bottom_boundary_col_start(&self, rect: &PaneRect) -> (first: usize)
        ensures
            first == edge_col_start(*rect),
    {
        if rect.x == 0 {
            0
        } else {
            rect.x - 1
        }
    }

    /// The column past the pane's top and bottom boundaries.
    fn rect_bottom_boundary_col_end(&self, rect: &PaneRect) -> (end: usize)
        requires
            rect.x + rect.cols <= usize::MAX,
        ensures
            end == edge_col_end(*rect),
    {
        rect.x + rect.cols
    }

    /// Whether the pane lies wholly inside the viewport.
    fn is_fully_inside_screen(&self, rect: &PaneRect) -> (r: bool)
        requires
            rect_fits(self.viewport, *rect),
        ensures
            r == fully_inside(self.viewport, *rect),
    {
        rect.x >= self.viewport.x && rect.x + rect.cols <= self.viewport.x + self.viewport.cols
            && rect.y >= self.viewport.y && rect.y + rect.rows <= self.viewport.y
            + self.viewport.rows
    }

    /// Draws one symbol into a cell, merging it with what is there.
    fn merge_symbol(&mut self, coordinates: Coordinates, symbol: BoundarySymbol)
        requires
            old(self).wf(),
            old(self).boundary_characters@.dom().contains(coordinates) ==> old(self).boundary_characters@[coordinates].boundary_type.is_basic(),
            symbol.boundary_type.is_basic(),
        ensures
            final(self).wf(),
            final(self).viewport == old(self).viewport,
            final(self).boundary_characters@ == merge_cell(
                old(self).boundary_characters@,
                (coordinates, symbol),
            ),
            final(self).boundary_characters@[coordinates].boundary_type.is_basic(),
            all_basic(old(self).boundary_characters@) ==> all_basic(final(self).boundary_characters@),
    {
        let ghost before = self.boundary_characters@;
        let next_symbol = match self.boundary_characters.remove(&coordinates) {
            Some(current_symbol) => {
                assert(before.dom().contains(coordinates));
                assert(combinable(current_symbol.boundary_type, symbol.boundary_type));
                match combine_symbols(current_symbol, symbol) {
                    Some(combined) => combined,
                    None => symbol,
                }
            },
            None => symbol,
        };
        self.boundary_characters.insert(coordinates, next_symbol);
        assert(self.boundary_characters@ =~= merge_cell(before, (coordinates, symbol)));
    }

    /// Draws a sequence of cells, in order.
    fn merge_all(&mut self, cells: &Vec<Cell>)
        requires
            old(self).wf(),
            drawn_on_basic(old(self).boundary_characters@, cells@),
            forall|i: int| 0 <= i < cells@.len() ==> (#[trigger] cells@[i]).1.boundary_type.is_basic(),
        ensures
            final(self).wf(),
            final(self).viewport == old(self).viewport,
            final(self).boundary_characters@ == merge_cells(old(self).boundary_characters@, cells@),
            forall|i: int| 0 <= i < cells@.len() ==> final(self).boundary_characters@.dom().contains(#[trigger] cells@[i].0),
            drawn_on_basic(final(self).boundary_characters@, cells@),
            all_basic(old(self).boundary_characters@) ==> all_basic(final(self).boundary_characters@),
    {
        let ghost start = self.boundary_characters@;
        let mut i: usize = 0;
        assert(cells@.take(0) =~= Seq::<Cell>::empty());
        while i < cells.len()
            invariant
                self.wf(),
                self.viewport == old(self).viewport,
                i <= cells@.len(),
                drawn_on_basic(self.boundary_characters@, cells@),
                forall|j: int| 0 <= j < i ==> #[trigger] self.boundary_characters@.dom().contains(cells@[j].0),
                self.boundary_characters@ == merge_cells(start, cells@.take(i as int)),
                start == old(self).boundary_characters@,
                all_basic(start) ==> all_basic(self.boundary_characters@),
                forall|j: int| 0 <= j < cells@.len() ==> (#[trigger] cells@[j]).1.boundary_type.is_basic(),
            decreases cells@.len() - i,
        {
            let (coordinates, symbol) = cells[i];
            let ghost before = self.boundary_characters@;
            self.merge_symbol(coordinates, symbol);
            proof {
                lemma_merge_cells_step(start, cells@, i as int);
                let after = self.boundary_characters@;
                assert forall|j: int|
                    0 <= j < cells@.len() && #[trigger] after.dom().contains(cells@[j].0) implies after[cells@[j].0].boundary_type.is_basic() by {
                    if cells@[j].0 != coordinates {
                        assert(before.dom().contains(cells@[j].0));
                    }
                }
                assert forall|j: int| 0 <= j < i + 1 implies #[trigger] after.dom().contains(cells@[j].0) by {
                    if j < i {
                        assert(before.dom().contains(cells@[j].0));
                    }
                }
            }
            i += 1;
        }
        assert(cells@.take(cells@.len() as int) =~= cells@);
        let ghost fin = self.boundary_characters@;
        assert forall|j: int| 0 <= j < cells@.len() implies fin.dom().contains(#[trigger] cells@[j].0) by {
            assert(fin.dom().contains(cells@[j].0));
        }
    }

    /// Draws the boundary of a pane into the viewport's glyphs, merging it with the boundaries
    /// already drawn; a pane that is not fully inside the viewport draws nothing.
    #[verifier::rlimit(40)]
    pub fn add_rect(
        &mut self,
        rect: &PaneRect,
        color: Option<RankedColor>,
        pane_is_on_top_of_stack: bool,
        pane_is_on_bottom_of_stack: bool,
        pane_is_stacked_under: bool,
    )
        requires
            old(self).wf(),
            drawn_on_basic(
                old(self).boundary_characters@,
                rect_cells(
                    old(self).viewport,
                    *rect,
                    color,
                    pane_is_on_top_of_stack,
                    pane_is_on_bottom_of_stack,
                    pane_is_stacked_under,
                ),
            ),
            rect_fits(old(self).viewport, *rect),
            fully_inside(old(self).viewport, *rect) && rect.x + rect.cols == 0 ==> old(self).viewport.cols == 0,
            fully_inside(old(self).viewport, *rect) && rect.y + rect.rows == 0 ==> old(self).viewport.y
                + old(self).viewport.rows == 0,
        ensures
            final(self).wf(),
            final(self).viewport == old(self).viewport,
            all_basic(old(self).boundary_characters@) ==> all_basic(final(self).boundary_characters@),
            final(self).boundary_characters@ == merge_cells(
                old(self).boundary_characters@,
                rect_cells(
                    old(self).viewport,
                    *rect,
                    color,
                    pane_is_on_top_of_stack,
                    pane_is_on_bottom_of_stack,
                    pane_is_stacked_under,
                ),
            ),
    {
        let v = self.viewport;
        let r = *rect;
        if !self.is_fully_inside_screen(&r) {
            return;
        }
        let ghost m0 = self.boundary_characters@;
        let left = if r.x > v.x {
            vertical_side(self, &r, color, pane_is_stacked_under, r.x - 1, true)
        } else {
            Vec::new()
        };
        let top = if r.y > v.y && !(r.is_stacked && !pane_is_on_top_of_stack) {
            horizontal_side(self, &r, color, pane_is_on_top_of_stack, r.y - 1, true)
        } else {
            Vec::new()
        };
        let right = if self.rect_right_boundary_is_before_screen_edge(&r) {
            vertical_side(self, &r, color, pane_is_stacked_under, r.x + r.cols - 1, false)
        } else {
            Vec::new()
        };
        let bottom = if self.rect_bottom_boundary_is_before_screen_edge(&r) && !(r.is_stacked
            && !pane_is_on_bottom_of_stack) {
            horizontal_side(self, &r, color, pane_is_on_bottom_of_stack, r.y + r.rows - 1, false)
        } else {
            Vec::new()
        };
        assert(left@ == left_cells(v, r, color, pane_is_stacked_under));
        assert(top@ == top_cells(v, r, color, pane_is_on_top_of_stack));
        assert(right@ == right_cells(v, r, color, pane_is_stacked_under));
        assert(bottom@ == bottom_cells(v, r, color, pane_is_on_bottom_of_stack));
        assert forall|i: int| 0 <= i < left@.len() implies (#[trigger] left@[i]).1.boundary_type.is_basic() by {}
        assert forall|i: int| 0 <= i < top@.len() implies (#[trigger] top@[i]).1.boundary_type.is_basic() by {}
        assert forall|i: int| 0 <= i < right@.len() implies (#[trigger] right@[i]).1.boundary_type.is_basic() by {}
        assert forall|i: int| 0 <= i < bottom@.len() implies (#[trigger] bottom@[i]).1.boundary_type.is_basic() by {}
        let mut cells = left;
        let mut rest = top;
        cells.append(&mut rest);
        let mut rest = right;
        cells.append(&mut rest);
        let mut rest = bottom;
        cells.append(&mut rest);
        assert(cells@ =~= rect_cells(v, r, color, pane_is_on_top_of_stack, pane_is_on_bottom_of_stack, pane_is_stacked_under));
        self.merge_all(&cells);
    }

    /// Removes the horizontal strokes of the glyphs inside rectangular line segments
    /// `(x, y, width)`, keeping their vertical strokes.
    pub fn remove_horizontal_segments(&mut self, segments: &[(usize, usize, usize)])
        requires
            old(self).wf(),
        ensures
            final(self).wf(),
            final(self).viewport == old(self).viewport,
            final(self).boundary_characters@ == strip_cells(
                old(self).boundary_characters@,
                segments_cells(segments@),
            ),
    {
        let ghost start = self.boundary_characters@;
        let mut s: usize = 0;
        assert(segments@.take(0) =~= Seq::<(usize, usize, usize)>::empty());
        while s < segments.len()
            invariant
                self.wf(),
                self.viewport == old(self).viewport,
                s <= segments@.len(),
                self.boundary_characters@ == strip_cells(start, segments_cells(segments@.take(s as int))),
            decreases segments@.len() - s,
        {
            let (x, y, width) = segments[s];
            let end = x.saturating_add(width);
            let ghost before = self.boundary_characters@;
            let ghost cells = segment_cells((x, y, width));
            let mut col = x;
            assert(cells.take(0) =~= Seq::<Coordinates>::empty());
            while col < end
                invariant
                    self.wf(),
                    self.viewport == old(self).viewport,
                    x <= col,
                    x < end ==> col <= end,
                    x >= end ==> col == x,
                    end == x.saturating_add(width),
                    cells == segment_cells((x, y, width)),
                    self.boundary_characters@ == strip_cells(before, cells.take(col - x)),
                decreases end - col,
            {
                let coordinates = Coordinates::new(col, y);
                let ghost m = self.boundary_characters@;
                if let Some(symbol) = self.boundary_characters.remove(&coordinates) {
                    if let Some(stripped_symbol) = symbol.without_horizontal_component() {
                        self.boundary_characters.insert(coordinates, stripped_symbol);
                    }
                }
                proof {
                    assert(cells[col - x] == coordinates);
                    assert(cells.take(col - x + 1).drop_last() =~= cells.take(col - x));
                    assert(self.boundary_characters@ =~= strip_cell(m, coordinates));
                }
                col += 1;
            }
            proof {
                assert(col - x == cells.len());
                assert(cells.take(col - x) =~= cells);
                assert(segments@.take(s + 1).drop_last() =~= segments@.take(s as int));
                lemma_strip_cells_append(start, segments_cells(segments@.take(s as int)), cells);
            }
            s += 1;
        }
        assert(segments@.take(segments@.len() as int) =~= segments@);
    }

    /// Gives every boundary glyph one colour.
    pub fn set_color(&mut self, color: Option<RankedColor>)
        requires
            old(self).wf(),
        ensures
            final(self).wf(),
            final(self).viewport == old(self).viewport,
            final(self).boundary_characters@.dom() == old(self).boundary_characters@.dom(),
            forall|k: Coordinates| #[trigger]
                final(self).boundary_characters@.dom().contains(k)
                    ==> final(self).boundary_characters@[k] == (BoundarySymbol {
                    color,
                    ..old(self).boundary_characters@[k]
                }),
    {
        self.boundary_characters.update_all(SymbolUpdate::Recolor(color));
    }

    /// Draws the plain vertical boundary lines heavy; other glyphs stay as they are.
    pub fn use_heavy_verticals(&mut self)
        requires
            old(self).wf(),
        ensures
            final(self).wf(),
            final(self).viewport == old(self).viewport,
            final(self).boundary_characters@.dom() == old(self).boundary_characters@.dom(),
            forall|k: Coordinates| #[trigger]
                final(self).boundary_characters@.dom().contains(k)
                    ==> final(self).boundary_characters@[k] == (if old(
                    self,
                ).boundary_characters@[k].boundary_type == BoundaryType::Vertical {
                    BoundarySymbol {
                        boundary_type: BoundaryType::HeavyVertical,
                        ..old(self).boundary_characters@[k]
                    }
                } else {
                    old(self).boundary_characters@[k]
                }),
    {
        self.boundary_characters.update_all(SymbolUpdate::HeavyVerticals);
    }

    /// The cells to draw: every boundary glyph that is not already on screen in the same form,
    /// each once.
    pub fn render(&self, existing_boundaries_on_screen: Option<&Boundaries>) -> (chunks: Vec<
        BoundaryChunk,
    >)
        requires
            self.wf(),
            existing_boundaries_on_screen matches Some(e) ==> e.wf(),
        ensures
            forall|i: int|
                0 <= i < chunks@.len() ==> {
                    let k = Coordinates { x: (#[trigger] chunks@[i]).x, y: chunks@[i].y };
                    &&& self.boundary_characters@.dom().contains(k)
                    &&& chunks@[i].cell == symbol_cell(self.boundary_characters@[k])
                    &&& !already_on_screen(
                        match existing_boundaries_on_screen {
                            Some(e) => Some(e.boundary_characters@),
                            None => None,
                        },
                        k,
                        self.boundary_characters@[k],
                    )
                },
            forall|k: Coordinates| #[trigger]
                self.boundary_characters@.dom().contains(k) && !already_on_screen(
                    match existing_boundaries_on_screen {
                        Some(e) => Some(e.boundary_characters@),
                        None => None,
                    },
                    k,
                    self.boundary_characters@[k],
                ) ==> exists|i: int|
                    0 <= i < chunks@.len() && #[trigger] chunks@[i].x == k.x && chunks@[i].y == k.y,
            forall|i: int, j: int|
                0 <= i < chunks@.len() && 0 <= j < chunks@.len() && i != j ==> !(
                #[trigger] chunks@[i].x == #[trigger] chunks@[j].x && chunks@[i].y == chunks@[j].y),
    {
        let ghost existing = match existing_boundaries_on_screen {
            Some(e) => Some(e.boundary_characters@),
            None => None,
        };
        let ghost m = self.boundary_characters@;
        let entries = self.boundary_characters.iter_entries();
        let mut chunks: Vec<BoundaryChunk> = Vec::new();
        let ghost mut taken: Seq<int> = Seq::empty();
        let mut i: usize = 0;
        while i < entries.len()
            invariant
                i <= entries@.len(),
                entries@.len() == m.dom().len(),
                forall|a: int|
                    0 <= a < entries@.len() ==> #[trigger] m.dom().contains(entries@[a].0)
                        && m[entries@[a].0] == entries@[a].1,
                forall|k: Coordinates| #[trigger]
                    m.dom().contains(k) ==> exists|a: int|
                        0 <= a < entries@.len() && #[trigger] entries@[a].0 == k,
                forall|a: int, b: int|
                    0 <= a < entries@.len() && 0 <= b < entries@.len() && a != b
                        ==> #[trigger] entries@[a].0 != #[trigger] entries@[b].0,
                taken.len() == chunks@.len(),
                forall|c: int|
                    0 <= c < chunks@.len() ==> 0 <= #[trigger] taken[c] < i && chunks@[c]
                        == (BoundaryChunk {
                        x: entries@[taken[c]].0.x,
                        y: entries@[taken[c]].0.y,
                        cell: symbol_cell(entries@[taken[c]].1),
                    }) && !already_on_screen(existing, entries@[taken[c]].0, entries@[taken[c]].1),
                forall|c: int, d: int|
                    0 <= c < d < chunks@.len() ==> #[trigger] taken[c] < #[trigger] taken[d],
                forall|a: int|
                    0 <= a < i && !already_on_screen(existing, (#[trigger] entries@[a]).0, entries@[a].1)
                        ==> exists|c: int| 0 <= c < chunks@.len() && taken[c] == a,
                m == self.boundary_characters@,
                existing == match existing_boundaries_on_screen {
                    Some(e) => Some(e.boundary_characters@),
                    None => None,
                },
                existing_boundaries_on_screen matches Some(e) ==> e.wf(),
            decreases entries@.len() - i,
        {
            let (coordinates, symbol) = entries[i];
            let ghost taken_before = taken;
            let ghost len_before = chunks@.len();
            let on_screen = match existing_boundaries_on_screen {
                Some(e) => match e.boundary_characters.get(&coordinates) {
                    Some(s) => *s == symbol,
                    None => false,
                },
                None => false,
            };
            if !on_screen {
                chunks.push(
                    BoundaryChunk {
                        x: coordinates.x,
                        y: coordinates.y,
                        cell: symbol.as_terminal_character(),
                    },
                );
                proof {
                    taken = taken.push(i as int);
                }
            }
            proof {
                assert forall|a: int|
                    0 <= a < i + 1 && !already_on_screen(existing, (#[trigger] entries@[a]).0, entries@[a].1)
                        implies exists|c: int| 0 <= c < chunks@.len() && taken[c] == a by {
                    if a == i {
                        assert(taken[chunks@.len() - 1] == a);
                    } else {
                        let c = choose|c: int| 0 <= c < len_before && taken_before[c] == a;
                        assert(taken[c] == a);
                    }
                }
            }
            i += 1;
        }
        assert forall|k: Coordinates| #[trigger]
            m.dom().contains(k) && !already_on_screen(existing, k, m[k]) implies exists|c: int|
                0 <= c < chunks@.len() && #[trigger] chunks@[c].x == k.x && chunks@[c].y == k.y by {
            let a = choose|a: int| 0 <= a < entries@.len() && #[trigger] entries@[a].0 == k;
            assert(m.dom().contains(entries@[a].0));
            let c = choose|c: int| 0 <= c < chunks@.len() && taken[c] == a;
            assert(chunks@[c].x == k.x);
        }
        assert forall|c: int, d: int|
            0 <= c < chunks@.len() && 0 <= d < chunks@.len() && c != d implies !(
            #[trigger] chunks@[c].x == #[trigger] chunks@[d].x && chunks@[c].y == chunks@[d].y) by {
            if c < d {
                assert(taken[c] < taken[d]);
            } else {
                assert(taken[d] < taken[c]);
            }
            assert(entries@[taken[c]].0 != entries@[taken[d]].0);
        }
        assert forall|c: int| 0 <= c < chunks@.len() implies {
            let k = Coordinates { x: (#[trigger] chunks@[c]).x, y: chunks@[c].y };
            &&& m.dom().contains(k)
            &&& chunks@[c].cell == symbol_cell(m[k])
            &&& !already_on_screen(existing, k, m[k])
        } by {
            let a = taken[c];
            assert(m.dom().contains(entries@[a].0));
            assert(entries@[a].0 == Coordinates { x: chunks@[c].x, y: chunks@[c].y });
        }
        chunks
    }
}

} // verus!
