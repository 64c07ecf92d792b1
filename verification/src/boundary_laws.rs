use vstd::prelude::*;
use crate::geom::Viewport;
use crate::boundary_symbol::{
    BoundarySymbol, RankedColor, combined_type, law_combined_glyph_ignores_order,
    law_combining_glyphs_is_associative,
};
use crate::boundary_map::Coordinates;
use crate::boundaries::{
    Cell, PaneRect, all_basic, bottom_cells, fully_inside, left_cells, merge_cell, merge_cells, rect_cells,
    right_cells, top_cells,
};

verus! {

/// Two maps draw the same glyphs: the same cells, and in each the same glyph, visible or not
/// alike (their colours may differ).
pub open spec fn same_glyphs(a: Map<Coordinates, BoundarySymbol>, b: Map<Coordinates, BoundarySymbol>) -> bool {
    &&& a.dom() == b.dom()
    &&& forall|k: Coordinates| #[trigger] a.dom().contains(k) ==> a[k].boundary_type == b[k].boundary_type
        && a[k].invisible == b[k].invisible
}

/// Every symbol of the cells is a basic glyph.
pub open spec fn cells_basic(cells: Seq<Cell>) -> bool {
    forall|i: int| 0 <= i < cells.len() ==> (#[trigger] cells[i]).1.boundary_type.is_basic()
}

proof fn lemma_same_glyphs_symmetric(a: Map<Coordinates, BoundarySymbol>, b: Map<Coordinates, BoundarySymbol>)
    requires
        same_glyphs(a, b),
    ensures
        same_glyphs(b, a),
{
}

proof fn lemma_same_glyphs_transitive(
    a: Map<Coordinates, BoundarySymbol>,
    b: Map<Coordinates, BoundarySymbol>,
    c: Map<Coordinates, BoundarySymbol>,
)
    requires
        same_glyphs(a, b),
        same_glyphs(b, c),
    ensures
        same_glyphs(a, c),
{
    assert forall|k: Coordinates| #[trigger] a.dom().contains(k) implies a[k].boundary_type == c[k].boundary_type
        && a[k].invisible == c[k].invisible by {
        assert(b.dom().contains(k));
    }
}

proof fn lemma_merge_cell_keeps_basic(m: Map<Coordinates, BoundarySymbol>, c: Cell)
    requires
        all_basic(m),
        c.1.boundary_type.is_basic(),
    ensures
        all_basic(merge_cell(m, c)),
{
}

proof fn lemma_merge_cells_keeps_basic(m: Map<Coordinates, BoundarySymbol>, cells: Seq<Cell>)
    requires
        all_basic(m),
        cells_basic(cells),
    ensures
        all_basic(merge_cells(m, cells)),
    decreases cells.len(),
{
    if cells.len() > 0 {
        lemma_merge_cells_keeps_basic(m, cells.drop_last());
        lemma_merge_cell_keeps_basic(merge_cells(m, cells.drop_last()), cells.last());
    }
}

/// Drawing a cell into maps that draw the same glyphs gives maps that draw the same glyphs.
proof fn lemma_merge_cell_congruent(a: Map<Coordinates, BoundarySymbol>, b: Map<Coordinates, BoundarySymbol>, c: Cell)
    requires
        same_glyphs(a, b),
    ensures
        same_glyphs(merge_cell(a, c), merge_cell(b, c)),
{
    let ma = merge_cell(a, c);
    let mb = merge_cell(b, c);
    assert(ma.dom() =~= mb.dom());
}

proof fn lemma_merge_cells_congruent(a: Map<Coordinates, BoundarySymbol>, b: Map<Coordinates, BoundarySymbol>, cells: Seq<Cell>)
    requires
        same_glyphs(a, b),
    ensures
        same_glyphs(merge_cells(a, cells), merge_cells(b, cells)),
    decreases cells.len(),
{
    if cells.len() > 0 {
        lemma_merge_cells_congruent(a, b, cells.drop_last());
        lemma_merge_cell_congruent(merge_cells(a, cells.drop_last()), merge_cells(b, cells.drop_last()), cells.last());
    }
}

/// Two basic cells drawn in either order draw the same glyphs.
proof fn lemma_merge_cell_swap(m: Map<Coordinates, BoundarySymbol>, x: Cell, y: Cell)
    requires
        all_basic(m),
        x.1.boundary_type.is_basic(),
        y.1.boundary_type.is_basic(),
    ensures
        same_glyphs(merge_cell(merge_cell(m, x), y), merge_cell(merge_cell(m, y), x)),
{
    let a = merge_cell(merge_cell(m, x), y);
    let b = merge_cell(merge_cell(m, y), x);
    assert(a.dom() =~= b.dom());
    if x.0 == y.0 {
        let tx = x.1.boundary_type;
        let ty = y.1.boundary_type;
        law_combined_glyph_ignores_order(tx, ty);
        if m.dom().contains(x.0) {
            let t = m[x.0].boundary_type;
            law_combining_glyphs_is_associative(t, tx, ty);
            law_combining_glyphs_is_associative(t, ty, tx);
            assert(combined_type(combined_type(t, tx), ty) == combined_type(combined_type(t, ty), tx));
        }
    }
}

/// Drawing one cell after a run of cells draws the same glyphs as drawing it before them.
proof fn lemma_merge_cell_moves_first(m: Map<Coordinates, BoundarySymbol>, cells: Seq<Cell>, c: Cell)
    requires
        all_basic(m),
        cells_basic(cells),
        c.1.boundary_type.is_basic(),
    ensures
        same_glyphs(merge_cell(merge_cells(m, cells), c), merge_cells(merge_cell(m, c), cells)),
    decreases cells.len(),
{
    if cells.len() > 0 {
        let prefix = cells.drop_last();
        let last = cells.last();
        assert(cells_basic(prefix));
        lemma_merge_cells_keeps_basic(m, prefix);
        // merge_cell(merge_cell(P, last), c) ~ merge_cell(merge_cell(P, c), last)
        let p = merge_cells(m, prefix);
        lemma_merge_cell_swap(p, last, c);
        // merge_cell(P, c) ~ merge_cells(merge_cell(m, c), prefix)
        lemma_merge_cell_moves_first(m, prefix, c);
        lemma_merge_cell_congruent(merge_cell(p, c), merge_cells(merge_cell(m, c), prefix), last);
        lemma_same_glyphs_transitive(
            merge_cell(merge_cell(p, last), c),
            merge_cell(merge_cell(p, c), last),
            merge_cell(merges_after(m, c, prefix), last),
        );
    }
}

/// The cells drawn after one cell was drawn first.
pub open spec fn merges_after(m: Map<Coordinates, BoundarySymbol>, c: Cell, cells: Seq<Cell>) -> Map<Coordinates, BoundarySymbol> {
    merge_cells(merge_cell(m, c), cells)
}

/// Two runs of basic cells drawn one after the other, in either order, draw the same glyphs.
proof fn lemma_merge_runs_commute(m: Map<Coordinates, BoundarySymbol>, a: Seq<Cell>, b: Seq<Cell>)
    requires
        all_basic(m),
        cells_basic(a),
        cells_basic(b),
    ensures
        same_glyphs(merge_cells(merge_cells(m, a), b), merge_cells(merge_cells(m, b), a)),
    decreases b.len(),
{
    if b.len() == 0 {
    } else {
        let prefix = b.drop_last();
        let last = b.last();
        assert(cells_basic(prefix));
        lemma_merge_runs_commute(m, a, prefix);
        // merge_cell(merge_cells(merge_cells(m, a), prefix), last)
        //   ~ merge_cell(merge_cells(merge_cells(m, prefix), a), last)
        lemma_merge_cell_congruent(
            merge_cells(merge_cells(m, a), prefix),
            merge_cells(merge_cells(m, prefix), a),
            last,
        );
        // ~ merge_cells(merge_cell(merge_cells(m, prefix), last), a)
        lemma_merge_cells_keeps_basic(m, prefix);
        lemma_merge_cell_moves_first(merge_cells(m, prefix), a, last);
        lemma_same_glyphs_transitive(
            merge_cells(merge_cells(m, a), b),
            merge_cell(merge_cells(merge_cells(m, prefix), a), last),
            merge_cells(merge_cells(m, b), a),
        );
    }
}

#[verifier::rlimit(30)]
proof fn lemma_rect_cells_basic(
    v: Viewport,
    r: PaneRect,
    color: Option<RankedColor>,
    on_top_of_stack: bool,
    on_bottom_of_stack: bool,
    stacked_under: bool,
)
    ensures
        cells_basic(rect_cells(v, r, color, on_top_of_stack, on_bottom_of_stack, stacked_under)),
{
    if fully_inside(v, r) {
        let l = left_cells(v, r, color, stacked_under);
        let t = top_cells(v, r, color, on_top_of_stack);
        let rr = right_cells(v, r, color, stacked_under);
        let b = bottom_cells(v, r, color, on_bottom_of_stack);
        assert(cells_basic(l)) by {
            assert forall|i: int| 0 <= i < l.len() implies (#[trigger] l[i]).1.boundary_type.is_basic() by {}
        }
        assert(cells_basic(t)) by {
            assert forall|i: int| 0 <= i < t.len() implies (#[trigger] t[i]).1.boundary_type.is_basic() by {}
        }
        assert(cells_basic(rr)) by {
            assert forall|i: int| 0 <= i < rr.len() implies (#[trigger] rr[i]).1.boundary_type.is_basic() by {}
        }
        assert(cells_basic(b)) by {
            assert forall|i: int| 0 <= i < b.len() implies (#[trigger] b[i]).1.boundary_type.is_basic() by {}
        }
        let all = l + t + rr + b;
        assert forall|i: int| 0 <= i < all.len() implies (#[trigger] all[i]).1.boundary_type.is_basic() by {
            if i < l.len() {
                assert(all[i] == l[i]);
            } else if i < l.len() + t.len() {
                assert(all[i] == t[i - l.len()]);
            } else if i < l.len() + t.len() + rr.len() {
                assert(all[i] == rr[i - l.len() - t.len()]);
            } else {
                assert(all[i] == b[i - l.len() - t.len() - rr.len()]);
            }
        }
    }
}

/// Where two panes' boundaries are drawn into the same glyphs, the order in which they are
/// drawn does not matter: the same cells hold the same glyphs (only the colour where they meet
/// can depend on the order).
pub proof fn law_boundaries_do_not_depend_on_drawing_order(
    m: Map<Coordinates, BoundarySymbol>,
    v: Viewport,
    a: PaneRect,
    color_a: Option<RankedColor>,
    a_on_top_of_stack: bool,
    a_on_bottom_of_stack: bool,
    a_stacked_under: bool,
    b: PaneRect,
    color_b: Option<RankedColor>,
    b_on_top_of_stack: bool,
    b_on_bottom_of_stack: bool,
    b_stacked_under: bool,
)
    requires
        all_basic(m),
    ensures
        ({
            let ca = rect_cells(v, a, color_a, a_on_top_of_stack, a_on_bottom_of_stack, a_stacked_under);
            let cb = rect_cells(v, b, color_b, b_on_top_of_stack, b_on_bottom_of_stack, b_stacked_under);
            &&& same_glyphs(merge_cells(merge_cells(m, ca), cb), merge_cells(merge_cells(m, cb), ca))
            &&& m.dom().subset_of(merge_cells(merge_cells(m, ca), cb).dom())
        }),
{
    let ca = rect_cells(v, a, color_a, a_on_top_of_stack, a_on_bottom_of_stack, a_stacked_under);
    let cb = rect_cells(v, b, color_b, b_on_top_of_stack, b_on_bottom_of_stack, b_stacked_under);
    lemma_rect_cells_basic(v, a, color_a, a_on_top_of_stack, a_on_bottom_of_stack, a_stacked_under);
    lemma_rect_cells_basic(v, b, color_b, b_on_top_of_stack, b_on_bottom_of_stack, b_stacked_under);
    lemma_merge_runs_commute(m, ca, cb);
    lemma_merge_cells_keeps_keys(m, ca);
    lemma_merge_cells_keeps_keys(merge_cells(m, ca), cb);
}

proof fn lemma_merge_cells_keeps_keys(m: Map<Coordinates, BoundarySymbol>, cells: Seq<Cell>)
    ensures
        m.dom().subset_of(merge_cells(m, cells).dom()),
    decreases cells.len(),
{
    if cells.len() > 0 {
        lemma_merge_cells_keeps_keys(m, cells.drop_last());
    }
}

} // verus!
