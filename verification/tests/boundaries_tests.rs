use zellij_server::boundaries::{Boundaries, PaneRect};
use zellij_server::boundary_map::Coordinates;
use zellij_server::boundary_symbol::{
    combine_symbols, BoundaryColor, BoundarySymbol, BoundaryType, RankedColor,
};
use zellij_server::geom::Viewport;

fn viewport() -> Viewport {
    Viewport { x: 0, y: 0, rows: 10, cols: 10 }
}

#[test]
fn remove_horizontal_segments_preserves_vertical_components() {
    let mut boundaries = Boundaries::new(viewport());
    boundaries.boundary_characters.insert(
        Coordinates::new(1, 2),
        BoundarySymbol::new(BoundaryType::VerticalRight),
    );
    boundaries.boundary_characters.insert(
        Coordinates::new(2, 2),
        BoundarySymbol::new(BoundaryType::Horizontal),
    );
    boundaries.boundary_characters.insert(
        Coordinates::new(3, 2),
        BoundarySymbol::new(BoundaryType::Cross),
    );
    boundaries.boundary_characters.insert(
        Coordinates::new(4, 2),
        BoundarySymbol::new(BoundaryType::Vertical),
    );

    boundaries.remove_horizontal_segments(&[(1, 2, 4)]);

    assert_eq!(
        boundaries
            .boundary_characters
            .get(&Coordinates::new(1, 2))
            .map(|symbol| symbol.boundary_type),
        Some(BoundaryType::Vertical)
    );
    assert!(!boundaries
        .boundary_characters
        .contains_key(&Coordinates::new(2, 2)));
    assert_eq!(
        boundaries
            .boundary_characters
            .get(&Coordinates::new(3, 2))
            .map(|symbol| symbol.boundary_type),
        Some(BoundaryType::Vertical)
    );
    assert_eq!(
        boundaries
            .boundary_characters
            .get(&Coordinates::new(4, 2))
            .map(|symbol| symbol.boundary_type),
        Some(BoundaryType::Vertical)
    );
}

#[test]
fn use_heavy_verticals_only_changes_vertical_glyphs() {
    let mut boundaries = Boundaries::new(viewport());
    boundaries.boundary_characters.insert(
        Coordinates::new(2, 1),
        BoundarySymbol::new(BoundaryType::Vertical),
    );
    boundaries.boundary_characters.insert(
        Coordinates::new(3, 1),
        BoundarySymbol::new(BoundaryType::Horizontal),
    );

    boundaries.use_heavy_verticals();

    assert_eq!(
        boundaries
            .boundary_characters
            .get(&Coordinates::new(2, 1))
            .map(|symbol| symbol.boundary_type),
        Some(BoundaryType::HeavyVertical)
    );
    assert_eq!(
        boundaries
            .boundary_characters
            .get(&Coordinates::new(3, 1))
            .map(|symbol| symbol.boundary_type),
        Some(BoundaryType::Horizontal)
    );
}

#[test]
fn set_color_overrides_all_boundary_glyph_colors() {
    let mut boundaries = Boundaries::new(viewport());
    boundaries.boundary_characters.insert(
        Coordinates::new(2, 1),
        BoundarySymbol::new(BoundaryType::Vertical),
    );
    boundaries.boundary_characters.insert(
        Coordinates::new(3, 1),
        BoundarySymbol::new(BoundaryType::Horizontal),
    );

    let color = Some(RankedColor { color: BoundaryColor::Rgb(0, 0, 0), precedence: 0 });
    boundaries.set_color(color);

    assert!(boundaries
        .boundary_characters
        .values()
        .iter()
        .all(|symbol| symbol.color == color));
}

#[test]
fn combined_glyph_ignores_drawing_order() {
    let pairs = [
        (BoundaryType::Vertical, BoundaryType::Horizontal, BoundaryType::Cross),
        (BoundaryType::TopLeft, BoundaryType::TopRight, BoundaryType::HorizontalDown),
        (BoundaryType::BottomLeft, BoundaryType::TopLeft, BoundaryType::VerticalRight),
        (BoundaryType::Horizontal, BoundaryType::BottomRight, BoundaryType::HorizontalUp),
    ];
    for (a, b, expected) in pairs {
        let ab = combine_symbols(BoundarySymbol::new(a), BoundarySymbol::new(b)).unwrap();
        let ba = combine_symbols(BoundarySymbol::new(b), BoundarySymbol::new(a)).unwrap();
        assert_eq!(ab.boundary_type, expected);
        assert_eq!(ba.boundary_type, expected);
    }
}

#[test]
fn combining_a_glyph_with_itself_keeps_it() {
    for t in [BoundaryType::Vertical, BoundaryType::Horizontal, BoundaryType::TopLeft, BoundaryType::Cross] {
        let s = BoundarySymbol::new(t);
        assert_eq!(combine_symbols(s, s), Some(s));
    }
}

#[test]
fn the_cross_takes_any_glyph() {
    for t in [BoundaryType::TopLeftRound, BoundaryType::HeavyVertical, BoundaryType::Vertical] {
        let crossed = combine_symbols(BoundarySymbol::new(t), BoundarySymbol::new(BoundaryType::Cross)).unwrap();
        assert_eq!(crossed.boundary_type, BoundaryType::Cross);
    }
}

#[test]
fn higher_precedence_colour_wins_where_glyphs_meet() {
    let low = BoundarySymbol {
        boundary_type: BoundaryType::Vertical,
        invisible: false,
        color: Some(RankedColor { color: BoundaryColor::EightBit(1), precedence: 0 }),
    };
    let high = BoundarySymbol {
        boundary_type: BoundaryType::Horizontal,
        invisible: true,
        color: Some(RankedColor { color: BoundaryColor::Rgb(9, 9, 9), precedence: 2 }),
    };
    let merged = combine_symbols(low, high).unwrap();
    assert_eq!(merged.boundary_type, BoundaryType::Cross);
    assert!(merged.invisible);
    assert_eq!(merged.color, high.color);
}

fn glyphs(boundaries: &Boundaries) -> Vec<Option<BoundaryType>> {
    let mut out = Vec::new();
    for y in 0..10 {
        for x in 0..10 {
            out.push(
                boundaries
                    .boundary_characters
                    .get(&Coordinates::new(x, y))
                    .map(|symbol| symbol.boundary_type),
            );
        }
    }
    out
}

#[test]
fn two_panes_give_the_same_glyphs_in_either_drawing_order() {
    let left = PaneRect { x: 0, y: 0, cols: 5, rows: 10, is_stacked: false, content_offset_bottom: 0 };
    let right = PaneRect { x: 5, y: 0, cols: 5, rows: 10, is_stacked: false, content_offset_bottom: 0 };
    let mut first = Boundaries::new(viewport());
    first.add_rect(&left, None, false, false, false);
    first.add_rect(&right, None, false, false, false);
    let mut second = Boundaries::new(viewport());
    second.add_rect(&right, None, false, false, false);
    second.add_rect(&left, None, false, false, false);
    assert_eq!(glyphs(&first), glyphs(&second));
    assert!(glyphs(&first).iter().any(|g| g.is_some()));
}
