use vstd::prelude::*;

verus! {

/// Identifies a pane: a terminal or a plugin, each by its number.
#[derive(Clone, Copy, Debug, PartialEq, Eq, Structural, Hash)]
pub enum PaneId {
    Terminal(u32),
    Plugin(u32),
}

impl PaneId {
    /// Whether this is a terminal pane.
    pub fn is_terminal(&self) -> (r: bool)
        ensures
            r == (*self is Terminal),
    {
        match self {
            PaneId::Terminal(_) => true,
            PaneId::Plugin(_) => false,
        }
    }

    /// Whether this is a plugin pane.
    pub fn is_plugin(&self) -> (r: bool)
        ensures
            r == (*self is Plugin),
    {
        match self {
            PaneId::Terminal(_) => false,
            PaneId::Plugin(_) => true,
        }
    }
}

/// Whether two optional pane ids hold the same pane.
pub fn same_pane(a: Option<PaneId>, b: Option<PaneId>) -> (r: bool)
    ensures
        r == (a == b),
{
    match (a, b) {
        (Some(x), Some(y)) => x == y,
        (None, None) => true,
        _ => false,
    }
}

/// A screen position: a line (negative above the viewport) and a column.
#[derive(Clone, Copy, Debug, PartialEq, Eq, Structural, Hash, Default)]
pub struct Position {
    pub line: isize,
    pub column: usize,
}

impl Position {
    pub fn new(line: isize, column: usize) -> (p: Position)
        ensures
            p.line == line,
            p.column == column,
    {
        Position { line, column }
    }

    pub fn line(&self) -> (l: isize)
        ensures
            l == self.line,
    {
        self.line
    }

    pub fn column(&self) -> (c: usize)
        ensures
            c == self.column,
    {
        self.column
    }
}

/// The size of the display, in rows and columns.
#[derive(Clone, Copy, Debug, PartialEq, Eq, Structural)]
pub struct Size {
    pub rows: usize,
    pub cols: usize,
}

/// A rectangle of the display given to panes.
#[derive(Clone, Copy, Debug, PartialEq, Eq, Structural)]
pub struct Viewport {
    pub x: usize,
    pub y: usize,
    pub rows: usize,
    pub cols: usize,
}

/// A pane dimension: a fixed number of cells, or a share of a full length of which it
/// currently takes `inner` cells.
#[derive(Clone, Copy, Debug, PartialEq, Eq, Structural)]
pub enum Dimension {
    Fixed(usize),
    Percent { inner: usize, full: usize },
}

impl Dimension {
    /// The number of cells the dimension takes.
    pub open spec fn cells(self) -> nat {
        match self {
            Dimension::Fixed(n) => n as nat,
            Dimension::Percent { inner, .. } => inner as nat,
        }
    }

    pub fn as_usize(&self) -> (n: usize)
        ensures
            n == self.cells(),
    {
        match self {
            Dimension::Fixed(n) => *n,
            Dimension::Percent { inner, .. } => *inner,
        }
    }

    pub fn fixed(n: usize) -> (d: Dimension)
        ensures
            d == Dimension::Fixed(n),
    {
        Dimension::Fixed(n)
    }

    pub fn is_fixed(&self) -> (r: bool)
        ensures
            r == (*self is Fixed),
    {
        match self {
            Dimension::Fixed(_) => true,
            _ => false,
        }
    }
}

/// Where a pane stands and how large it is.
#[derive(Clone, Copy, Debug, PartialEq, Eq, Structural)]
pub struct PaneGeom {
    pub x: usize,
    pub y: usize,
    pub cols: Dimension,
    pub rows: Dimension,
    pub stacked: Option<usize>,
}

impl PaneGeom {
    pub fn is_stacked(&self) -> (r: bool)
        ensures
            r == (self.stacked is Some),
    {
        self.stacked.is_some()
    }
}

/// `a` saturated at the largest `usize`.
pub open spec fn sat(a: int) -> int {
    if a > usize::MAX {
        usize::MAX as int
    } else if a < 0 {
        0
    } else {
        a
    }
}

pub fn min_usize(a: usize, b: usize) -> (r: usize)
    ensures
        r == if a <= b { a } else { b },
{
    if a <= b { a } else { b }
}

pub fn max_usize(a: usize, b: usize) -> (r: usize)
    ensures
        r == if a >= b { a } else { b },
{
    if a >= b { a } else { b }
}

} // verus!
