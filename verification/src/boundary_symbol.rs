use vstd::prelude::*;

verus! {

/// The box-drawing glyphs that pane boundaries are drawn with.
#[derive(Clone, Copy, Debug, PartialEq, Eq, Structural, Hash)]
pub enum BoundaryType {
    TopRight,
    TopRightRound,
    Vertical,
    HeavyVertical,
    Horizontal,
    TopLeft,
    TopLeftRound,
    BottomRight,
    BottomRightRound,
    BottomLeft,
    BottomLeftRound,
    VerticalLeft,
    VerticalRight,
    HorizontalDown,
    HorizontalUp,
    Cross,
}

/// Which of the four arms (up, down, left, right) a glyph draws.
#[derive(Clone, Copy, Debug, PartialEq, Eq, Structural)]
pub struct Arms {
    pub up: bool,
    pub down: bool,
    pub left: bool,
    pub right: bool,
}

pub open spec fn arms(up: bool, down: bool, left: bool, right: bool) -> Arms {
    Arms { up, down, left, right }
}

impl BoundaryType {
    /// The glyphs built from thin straight lines, which combine with each other.
    pub open spec fn is_basic(self) -> bool {
        !(self is TopRightRound || self is TopLeftRound || self is BottomRightRound
            || self is BottomLeftRound || self is HeavyVertical)
    }

    /// The arms a basic glyph draws.
    pub open spec fn arms(self) -> Arms {
        match self {
            BoundaryType::TopRight => arms(false, true, true, false),
            BoundaryType::Vertical => arms(true, true, false, false),
            BoundaryType::Horizontal => arms(false, false, true, true),
            BoundaryType::TopLeft => arms(false, true, false, true),
            BoundaryType::BottomRight => arms(true, false, true, false),
            BoundaryType::BottomLeft => arms(true, false, false, true),
            BoundaryType::VerticalLeft => arms(true, true, true, false),
            BoundaryType::VerticalRight => arms(true, true, false, true),
            BoundaryType::HorizontalDown => arms(false, true, true, true),
            BoundaryType::HorizontalUp => arms(true, false, true, true),
            BoundaryType::Cross => arms(true, true, true, true),
            BoundaryType::TopRightRound => arms(false, true, true, false),
            BoundaryType::TopLeftRound => arms(false, true, false, true),
            BoundaryType::BottomRightRound => arms(true, false, true, false),
            BoundaryType::BottomLeftRound => arms(true, false, false, true),
            BoundaryType::HeavyVertical => arms(true, true, false, false),
        }
    }

    /// The character the glyph is drawn with.
    pub open spec fn glyph(self) -> char {
        match self {
            BoundaryType::TopRight => '┐',
            BoundaryType::TopRightRound => '╮',
            BoundaryType::Vertical => '│',
            BoundaryType::HeavyVertical => '┃',
            BoundaryType::Horizontal => '─',
            BoundaryType::TopLeft => '┌',
            BoundaryType::TopLeftRound => '╭',
            BoundaryType::BottomRight => '┘',
            BoundaryType::BottomRightRound => '╯',
            BoundaryType::BottomLeft => '└',
            BoundaryType::BottomLeftRound => '╰',
            BoundaryType::VerticalLeft => '┤',
            BoundaryType::VerticalRight => '├',
            BoundaryType::HorizontalDown => '┬',
            BoundaryType::HorizontalUp => '┴',
            BoundaryType::Cross => '┼',
        }
    }

    /// The position of a basic glyph in the order in which pairs of glyphs are looked up.
    pub open spec fn lookup_rank(self) -> int {
        match self {
            BoundaryType::TopRight => 0,
            BoundaryType::Horizontal => 1,
            BoundaryType::Vertical => 2,
            BoundaryType::TopLeft => 3,
            BoundaryType::BottomRight => 4,
            BoundaryType::BottomLeft => 5,
            BoundaryType::VerticalLeft => 6,
            BoundaryType::VerticalRight => 7,
            BoundaryType::HorizontalDown => 8,
            BoundaryType::HorizontalUp => 9,
            _ => 10,
        }
    }

    pub fn as_char(self) -> (c: char)
        ensures
            c == self.glyph(),
    {
        match self {
            BoundaryType::TopRight => '┐',
            BoundaryType::TopRightRound => '╮',
            BoundaryType::Vertical => '│',
            BoundaryType::HeavyVertical => '┃',
            BoundaryType::Horizontal => '─',
            BoundaryType::TopLeft => '┌',
            BoundaryType::TopLeftRound => '╭',
            BoundaryType::BottomRight => '┘',
            BoundaryType::BottomRightRound => '╯',
            BoundaryType::BottomLeft => '└',
            BoundaryType::BottomLeftRound => '╰',
            BoundaryType::VerticalLeft => '┤',
            BoundaryType::VerticalRight => '├',
            BoundaryType::HorizontalDown => '┬',
            BoundaryType::HorizontalUp => '┴',
            BoundaryType::Cross => '┼',
        }
    }

    fn rank(self) -> (r: u8)
        ensures
            r == self.lookup_rank(),
    {
        match self {
            BoundaryType::TopRight => 0,
            BoundaryType::Horizontal => 1,
            BoundaryType::Vertical => 2,
            BoundaryType::TopLeft => 3,
            BoundaryType::BottomRight => 4,
            BoundaryType::BottomLeft => 5,
            BoundaryType::VerticalLeft => 6,
            BoundaryType::VerticalRight => 7,
            BoundaryType::HorizontalDown => 8,
            BoundaryType::HorizontalUp => 9,
            _ => 10,
        }
    }

    fn arms_of(self) -> (a: Arms)
        ensures
            a == self.arms(),
    {
        match self {
            BoundaryType::TopRight => Arms { up: false, down: true, left: true, right: false },
            BoundaryType::Vertical => Arms { up: true, down: true, left: false, right: false },
            BoundaryType::Horizontal => Arms { up: false, down: false, left: true, right: true },
            BoundaryType::TopLeft => Arms { up: false, down: true, left: false, right: true },
            BoundaryType::BottomRight => Arms { up: true, down: false, left: true, right: false },
            BoundaryType::BottomLeft => Arms { up: true, down: false, left: false, right: true },
            BoundaryType::VerticalLeft => Arms { up: true, down: true, left: true, right: false },
            BoundaryType::VerticalRight => Arms { up: true, down: true, left: false, right: true },
            BoundaryType::HorizontalDown => Arms { up: false, down: true, left: true, right: true },
            BoundaryType::HorizontalUp => Arms { up: true, down: false, left: true, right: true },
            BoundaryType::Cross => Arms { up: true, down: true, left: true, right: true },
            BoundaryType::TopRightRound => Arms { up: false, down: true, left: true, right: false },
            BoundaryType::TopLeftRound => Arms { up: false, down: true, left: false, right: true },
            BoundaryType::BottomRightRound => Arms {
                up: true,
                down: false,
                left: true,
                right: false,
            },
            BoundaryType::BottomLeftRound => Arms { up: true, down: false, left: false, right: true },
            BoundaryType::HeavyVertical => Arms { up: true, down: true, left: false, right: false },
        }
    }
}

/// Whether some basic glyph draws exactly these arms.
pub open spec fn arms_drawable(a: Arms) -> bool {
    (a.up as int) + (a.down as int) + (a.left as int) + (a.right as int) >= 2
}

/// The basic glyph that draws exactly the given arms (two or more of them).
pub open spec fn basic_glyph_with(a: Arms) -> BoundaryType {
    if a.up && a.down && a.left && a.right {
        BoundaryType::Cross
    } else if a.up && a.down && a.left {
        BoundaryType::VerticalLeft
    } else if a.up && a.down && a.right {
        BoundaryType::VerticalRight
    } else if a.left && a.right && a.down {
        BoundaryType::HorizontalDown
    } else if a.left && a.right && a.up {
        BoundaryType::HorizontalUp
    } else if a.up && a.down {
        BoundaryType::Vertical
    } else if a.left && a.right {
        BoundaryType::Horizontal
    } else if a.down && a.left {
        BoundaryType::TopRight
    } else if a.down && a.right {
        BoundaryType::TopLeft
    } else if a.up && a.left {
        BoundaryType::BottomRight
    } else {
        BoundaryType::BottomLeft
    }
}

pub fn basic_glyph_with_exec(a: Arms) -> (t: BoundaryType)
    ensures
        t == basic_glyph_with(a),
{
    if a.up && a.down && a.left && a.right {
        BoundaryType::Cross
    } else if a.up && a.down && a.left {
        BoundaryType::VerticalLeft
    } else if a.up && a.down && a.right {
        BoundaryType::VerticalRight
    } else if a.left && a.right && a.down {
        BoundaryType::HorizontalDown
    } else if a.left && a.right && a.up {
        BoundaryType::HorizontalUp
    } else if a.up && a.down {
        BoundaryType::Vertical
    } else if a.left && a.right {
        BoundaryType::Horizontal
    } else if a.down && a.left {
        BoundaryType::TopRight
    } else if a.down && a.right {
        BoundaryType::TopLeft
    } else if a.up && a.left {
        BoundaryType::BottomRight
    } else {
        BoundaryType::BottomLeft
    }
}

pub open spec fn union_arms(a: Arms, b: Arms) -> Arms {
    Arms { up: a.up || b.up, down: a.down || b.down, left: a.left || b.left, right: a.right || b.right }
}

/// The glyph that draws both of two glyphs in one cell: its arms are the union of theirs.
pub open spec fn combined_type(a: BoundaryType, b: BoundaryType) -> BoundaryType {
    if a is Cross || b is Cross {
        BoundaryType::Cross
    } else {
        basic_glyph_with(union_arms(a.arms(), b.arms()))
    }
}

/// Two glyphs can be drawn in one cell when both are basic, or one of them is the cross.
pub open spec fn combinable(a: BoundaryType, b: BoundaryType) -> bool {
    (a.is_basic() && b.is_basic()) || a is Cross || b is Cross
}

/// A colour for boundary glyphs.
#[derive(Clone, Copy, Debug, PartialEq, Eq, Structural, Hash)]
pub enum BoundaryColor {
    Rgb(u8, u8, u8),
    EightBit(u8),
}

/// A colour with its precedence: where glyphs meet, the colour of higher precedence is kept.
#[derive(Clone, Copy, Debug, PartialEq, Eq, Structural, Hash)]
pub struct RankedColor {
    pub color: BoundaryColor,
    pub precedence: usize,
}

/// The 256-colour palette entry boundaries are drawn with by default.
pub const DEFAULT_BOUNDARY_GRAY: u8 = 238;

/// A boundary glyph with its visibility and its colour (with the colour's precedence).
#[derive(Clone, Copy, Debug, PartialEq, Eq, Structural, Hash)]
pub struct BoundarySymbol {
    pub boundary_type: BoundaryType,
    pub invisible: bool,
    pub color: Option<RankedColor>,
}

/// A glyph in the default colour.
pub open spec fn new_symbol(boundary_type: BoundaryType) -> BoundarySymbol {
    BoundarySymbol {
        boundary_type,
        invisible: false,
        color: Some(RankedColor { color: BoundaryColor::EightBit(DEFAULT_BOUNDARY_GRAY), precedence: 0 }),
    }
}

/// The colour kept when two colours meet: the one of higher precedence, `first` on a tie;
/// when only one is set, that one.
pub open spec fn preferred_color(
    first: Option<RankedColor>,
    second: Option<RankedColor>,
) -> Option<RankedColor> {
    match (first, second) {
        (Some(a), Some(b)) => if a.precedence >= b.precedence {
            Some(a)
        } else {
            Some(b)
        },
        (Some(a), None) => Some(a),
        (None, b) => b,
    }
}

/// Drawing `next` in a cell that holds `current`: the glyphs merge, the cell stays invisible if
/// either was, and the colour of higher precedence wins. On a tie of precedence the colour of
/// whichever glyph comes first in the lookup order of glyph pairs wins, `current` when both
/// rank alike or one is the cross.
pub open spec fn combined_symbol(current: BoundarySymbol, next: BoundarySymbol) -> BoundarySymbol {
    let direct = current.boundary_type is Cross || next.boundary_type is Cross
        || current.boundary_type.lookup_rank() <= next.boundary_type.lookup_rank();
    BoundarySymbol {
        boundary_type: combined_type(current.boundary_type, next.boundary_type),
        invisible: current.invisible || next.invisible,
        color: if direct {
            preferred_color(current.color, next.color)
        } else {
            preferred_color(next.color, current.color)
        },
    }
}

/// A single terminal cell: a character and its foreground colour.
#[derive(Clone, Copy, Debug, PartialEq, Eq, Structural)]
pub struct TerminalCell {
    pub character: char,
    pub foreground: Option<BoundaryColor>,
}

/// The cell a symbol is drawn as: a blank for an invisible one, else its glyph in its colour.
pub open spec fn symbol_cell(s: BoundarySymbol) -> TerminalCell {
    if s.invisible {
        TerminalCell { character: ' ', foreground: None }
    } else {
        TerminalCell {
            character: s.boundary_type.glyph(),
            foreground: match s.color {
                Some(c) => Some(c.color),
                None => None,
            },
        }
    }
}

/// The symbol left when a boundary's horizontal strokes are taken away: nothing of a plain
/// horizontal line, a vertical line of a corner, tee or cross, and other glyphs unchanged.
pub open spec fn without_horizontal(s: BoundarySymbol) -> Option<BoundarySymbol> {
    match s.boundary_type {
        BoundaryType::Horizontal => None,
        BoundaryType::TopRight | BoundaryType::TopLeft | BoundaryType::BottomRight
        | BoundaryType::BottomLeft | BoundaryType::VerticalLeft | BoundaryType::VerticalRight
        | BoundaryType::HorizontalDown | BoundaryType::HorizontalUp | BoundaryType::Cross => Some(
            BoundarySymbol { boundary_type: BoundaryType::Vertical, ..s },
        ),
        _ => Some(s),
    }
}

fn preferred_color_exec(
    first: Option<RankedColor>,
    second: Option<RankedColor>,
) -> (r: Option<RankedColor>)
    ensures
        r == preferred_color(first, second),
{
    match (first, second) {
        (Some(a), Some(b)) => if a.precedence >= b.precedence {
            Some(a)
        } else {
            Some(b)
        },
        (Some(a), None) => Some(a),
        (None, b) => b,
    }
}

/// Merges the symbol drawn into a cell with the one already there; `None` never comes back for
/// glyphs that can share a cell.
pub fn combine_symbols(current_symbol: BoundarySymbol, next_symbol: BoundarySymbol) -> (r: Option<
    BoundarySymbol,
>)
    requires
        combinable(current_symbol.boundary_type, next_symbol.boundary_type),
    ensures
        r == Some(combined_symbol(current_symbol, next_symbol)),
{
    let a = current_symbol.boundary_type;
    let b = next_symbol.boundary_type;
    let invisible = current_symbol.invisible || next_symbol.invisible;
    let a_is_cross = match a {
        BoundaryType::Cross => true,
        _ => false,
    };
    let b_is_cross = match b {
        BoundaryType::Cross => true,
        _ => false,
    };
    let direct = a_is_cross || b_is_cross || a.rank() <= b.rank();
    let color = if direct {
        preferred_color_exec(current_symbol.color, next_symbol.color)
    } else {
        preferred_color_exec(next_symbol.color, current_symbol.color)
    };
    let boundary_type = if a_is_cross || b_is_cross {
        BoundaryType::Cross
    } else {
        let x = a.arms_of();
        let y = b.arms_of();
        basic_glyph_with_exec(
            Arms {
                up: x.up || y.up,
                down: x.down || y.down,
                left: x.left || y.left,
                right: x.right || y.right,
            },
        )
    };
    Some(BoundarySymbol { boundary_type, invisible, color })
}

impl BoundarySymbol {
    pub fn new(boundary_type: BoundaryType) -> (s: Self)
        ensures
            s == new_symbol(boundary_type),
    {
        BoundarySymbol {
            boundary_type,
            invisible: false,
            color: Some(RankedColor { color: BoundaryColor::EightBit(DEFAULT_BOUNDARY_GRAY), precedence: 0 }),
        }
    }

    /// Sets the colour and hands back a copy of the recoloured symbol.
    pub fn color(&mut self, color: Option<RankedColor>) -> (s: Self)
        ensures
            *final(self) == (BoundarySymbol { color, ..*old(self) }),
            s == *final(self),
    {
        self.color = color;
        *self
    }

    /// The terminal cell the symbol is drawn as.
    pub fn as_terminal_character(&self) -> (c: TerminalCell)
        ensures
            c == symbol_cell(*self),
    {
        if self.invisible {
            TerminalCell { character: ' ', foreground: None }
        } else {
            TerminalCell {
                character: self.boundary_type.as_char(),
                foreground: match self.color {
                    Some(c) => Some(c.color),
                    None => None,
                },
            }
        }
    }

    pub fn without_horizontal_component(&self) -> (r: Option<Self>)
        ensures
            r == without_horizontal(*self),
    {
        match self.boundary_type {
            BoundaryType::Horizontal => None,
            BoundaryType::TopRight | BoundaryType::TopLeft | BoundaryType::BottomRight
            | BoundaryType::BottomLeft | BoundaryType::VerticalLeft | BoundaryType::VerticalRight
            | BoundaryType::HorizontalDown | BoundaryType::HorizontalUp | BoundaryType::Cross => {
                Some(
                    BoundarySymbol {
                        boundary_type: BoundaryType::Vertical,
                        invisible: self.invisible,
                        color: self.color,
                    },
                )
            },
            _ => Some(*self),
        }
    }
}

proof fn lemma_basic_round_trip(t: BoundaryType)
    requires
        t.is_basic(),
    ensures
        basic_glyph_with(t.arms()) == t,
        arms_drawable(t.arms()),
{
}

proof fn lemma_drawable_round_trip(a: Arms)
    requires
        arms_drawable(a),
    ensures
        basic_glyph_with(a).arms() == a,
        basic_glyph_with(a).is_basic(),
{
}

/// The glyph drawn where two glyphs meet does not depend on which was drawn first.
pub proof fn law_combined_glyph_ignores_order(a: BoundaryType, b: BoundaryType)
    requires
        combinable(a, b),
    ensures
        combinable(b, a),
        combined_type(a, b) == combined_type(b, a),
{
}

/// Drawing a glyph over itself leaves it as it was.
pub proof fn law_combining_a_glyph_with_itself_keeps_it(a: BoundaryType)
    requires
        a.is_basic(),
    ensures
        combined_type(a, a) == a,
{
    lemma_basic_round_trip(a);
}

/// Where three glyphs meet, the result does not depend on which two merged first.
pub proof fn law_combining_glyphs_is_associative(a: BoundaryType, b: BoundaryType, c: BoundaryType)
    requires
        a.is_basic(),
        b.is_basic(),
        c.is_basic(),
    ensures
        combined_type(combined_type(a, b), c) == combined_type(a, combined_type(b, c)),
{
    lemma_basic_round_trip(a);
    lemma_basic_round_trip(b);
    lemma_basic_round_trip(c);
    let ab = union_arms(a.arms(), b.arms());
    let bc = union_arms(b.arms(), c.arms());
    assert(arms_drawable(ab));
    assert(arms_drawable(bc));
    lemma_drawable_round_trip(ab);
    lemma_drawable_round_trip(bc);
}

/// The merged glyph draws every arm of both glyphs, and no other.
pub proof fn law_combined_glyph_draws_both(a: BoundaryType, b: BoundaryType)
    requires
        a.is_basic(),
        b.is_basic(),
    ensures
        combined_type(a, b).arms() == union_arms(a.arms(), b.arms()),
{
    lemma_basic_round_trip(a);
    let ab = union_arms(a.arms(), b.arms());
    assert(arms_drawable(ab));
    lemma_drawable_round_trip(ab);
}

} // verus!
