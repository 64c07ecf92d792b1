use vstd::prelude::*;
use crate::geom::{PaneId, Viewport};
use crate::acme::{AcmePaneGeometry, AcmePaneRowsSnapshot, ColumnModel, ACME_COLLAPSED_PANE_ROWS, ids_of};
use crate::acme_lookup::{column_with_pane, column_with_pane_from, lemma_column_with_pane_found, index_of, lemma_index_of};
use crate::acme_plan::{
    cells_of, maximize_plan, maximized_rows, plan_of, restacked, restore_plan, rows_of,
    snapshot_rows,
};
use crate::acme::{
    count_eq, equalized, equalized_rows, heights_of, lemma_count_eq_bound, lemma_sum_nonneg, sum,
};
use crate::acme_layout::{first_open_from, last_open_at_or_above, heights_after_removing, reordered_beside, equalize_column, lemma_elem_le_sum, lemma_sum_remove, stack_column};
use crate::acme_resize::{lemma_cells_of_dims, lemma_transfer_keeps_total, resize_donors, resized_heights, transfer_rows, dims_of};
use crate::acme_plan::lemma_cells_take;
use crate::input::{Direction, Resize, ResizeStrategy};
use crate::acme_resize::{transfer, desc_range, asc_range, spare_rows, min_int};

verus! {

/// The columns with the panes of column `ci` replaced (a plan for that column carried out).
pub open spec fn with_panes(columns: Seq<ColumnModel>, ci: int, panes: Seq<AcmePaneGeometry>) -> Seq<
    ColumnModel,
> {
    columns.update(ci, ColumnModel { x: columns[ci].x, cols: columns[ci].cols, panes })
}

/// The panes of a column after maximizing `target`, when that succeeds: a lone pane stays as it
/// is; otherwise every other pane collapses to its title line and the target takes the rest.
pub open spec fn maximized_panes(panes: Seq<AcmePaneGeometry>, target: PaneId, viewport: Viewport) -> Seq<
    AcmePaneGeometry,
> {
    if panes.len() == 1 {
        panes
    } else {
        let collapsed = (panes.len() - 1) * ACME_COLLAPSED_PANE_ROWS;
        restacked(panes, maximized_rows(panes, target, viewport.rows - collapsed, viewport.rows as int), viewport.y as int)
    }
}

proof fn lemma_column_with_pane_by_ids(a: Seq<ColumnModel>, b: Seq<ColumnModel>, id: PaneId, i: int)
    requires
        a.len() == b.len(),
        forall|j: int| 0 <= j < a.len() ==> ids_of(#[trigger] a[j].panes) == ids_of(b[j].panes),
    ensures
        column_with_pane_from(a, id, i) == column_with_pane_from(b, id, i),
    decreases a.len() - i,
{
    if 0 <= i < a.len() {
        assert(ids_of(a[i].panes) == ids_of(b[i].panes));
        lemma_column_with_pane_by_ids(a, b, id, i + 1);
    }
}

/// Maximizing a pane and then giving its column back the heights recorded before keeps every
/// pane's place: with a snapshot of the column taken before maximizing, and a column that
/// filled the viewport's height, restoring after the maximize plan was carried out lays the
/// panes out again with their former heights from the viewport's top, in their former order;
/// a column that was so laid out gets exactly its former geometries back.
pub proof fn law_restoring_undoes_maximizing(
    columns: Seq<ColumnModel>,
    target: PaneId,
    viewport: Viewport,
    snapshot: AcmePaneRowsSnapshot,
)
    requires
        column_with_pane(columns, target) is Some,
        maximize_plan(columns, target, viewport) is Ok,
        snapshot.target_pane_id == target,
        snapshot.pane_rows@ == columns[column_with_pane(columns, target)->0].panes.map_values(
            |p: AcmePaneGeometry| (p.pane_id, p.geom.rows),
        ),
        sum(cells_of(rows_of(columns[column_with_pane(columns, target)->0].panes))) == viewport.rows,
    ensures
        ({
            let ci = column_with_pane(columns, target)->0;
            let panes = columns[ci].panes;
            let after = with_panes(columns, ci, maximized_panes(panes, target, viewport));
            &&& restore_plan(after, snapshot, viewport) == Ok::<Seq<(PaneId, crate::geom::PaneGeom)>, crate::acme_plan::AcmeError>(
                plan_of(restacked(panes, rows_of(panes), viewport.y as int)))
            &&& (restacked(panes, rows_of(panes), viewport.y as int) == panes ==> restore_plan(after, snapshot, viewport)
                == Ok::<Seq<(PaneId, crate::geom::PaneGeom)>, crate::acme_plan::AcmeError>(plan_of(panes)))
        }),
{
    let ci = column_with_pane(columns, target)->0;
    lemma_column_with_pane_found(columns, target, 0);
    let panes = columns[ci].panes;
    let q = maximized_panes(panes, target, viewport);
    let after = with_panes(columns, ci, q);
    assert(ids_of(q) =~= ids_of(panes));
    assert forall|j: int| 0 <= j < after.len() implies ids_of(#[trigger] after[j].panes) == ids_of(columns[j].panes) by {
        if j == ci {
            assert(after[j].panes == q);
        }
    }
    lemma_column_with_pane_by_ids(after, columns, target, 0);
    assert(after[ci].panes == q);
    assert(snapshot.ids() =~= ids_of(panes));
    assert(snapshot_rows(snapshot) =~= rows_of(panes));
    assert(restacked(q, rows_of(panes), viewport.y as int) =~= restacked(panes, rows_of(panes), viewport.y as int));
}


/// A column fills the viewport's height: its panes lie one below the other from the viewport's
/// top line, and their heights add up to the viewport's height.
pub open spec fn column_tiles(panes: Seq<AcmePaneGeometry>, viewport: Viewport) -> bool {
    &&& sum(heights_of(panes)) == viewport.rows
    &&& forall|i: int|
        0 <= i < panes.len() ==> (#[trigger] panes[i]).geom.y == viewport.y + sum(heights_of(panes).take(i))
}

proof fn lemma_restacked_tiles(panes: Seq<AcmePaneGeometry>, rows: Seq<crate::geom::Dimension>, viewport: Viewport)
    requires
        panes.len() == rows.len(),
        sum(cells_of(rows)) == viewport.rows,
        viewport.y + viewport.rows <= usize::MAX,
    ensures
        column_tiles(restacked(panes, rows, viewport.y as int), viewport),
        heights_of(restacked(panes, rows, viewport.y as int)) == cells_of(rows),
{
    let r = restacked(panes, rows, viewport.y as int);
    assert(heights_of(r) =~= cells_of(rows));
    assert forall|i: int| 0 <= i < panes.len() implies (#[trigger] r[i]).geom.y == viewport.y + sum(
        heights_of(r).take(i),
    ) by {
        lemma_cells_take(rows, i);
        lemma_sum_nonneg(cells_of(rows).take(i));
    }
}

proof fn lemma_sum_insert(s: Seq<int>, j: int, x: int)
    requires
        0 <= j <= s.len(),
    ensures
        sum(s.insert(j, x)) == sum(s) + x,
{
    lemma_sum_remove(s.insert(j, x), j);
    assert(s.insert(j, x).remove(j) =~= s);
}

/// Resizing a pane of a column that fills the viewport's height only moves rows between its
/// panes: whenever rows move, the new heights still fill the height, so the resize succeeds, and
/// the panes lie one below the other from the top again.
pub proof fn law_resizing_keeps_the_column_tiled(
    panes: Seq<AcmePaneGeometry>,
    i: int,
    strategy: ResizeStrategy,
    delta: int,
    viewport: Viewport,
)
    requires
        column_tiles(panes, viewport),
        viewport.y + viewport.rows <= usize::MAX,
        resized_heights(heights_of(panes), i, strategy, delta) is Some,
    ensures
        sum(resized_heights(heights_of(panes), i, strategy, delta)->0) == viewport.rows,
        column_tiles(
            restacked(
                panes,
                dims_of(resized_heights(heights_of(panes), i, strategy, delta)->0, viewport.rows),
                viewport.y as int,
            ),
            viewport,
        ),
{
    let h0 = heights_of(panes);
    let (donors, r) = resize_donors(strategy, i, h0.len() as int)->0;
    assert(0 <= r < h0.len());
    lemma_transfer_keeps_total(h0, donors, r, delta);
    let h = resized_heights(h0, i, strategy, delta)->0;
    assert(h == transfer_rows(h0, donors, r, delta).0);
    assert forall|k: int| 0 <= k < h.len() implies 0 <= #[trigger] h[k] <= usize::MAX by {
        lemma_elem_le_sum(h, k);
    }
    lemma_cells_of_dims(h, viewport.rows);
    lemma_restacked_tiles(panes, dims_of(h, viewport.rows), viewport);
}

/// Putting a pane of a column that fills the viewport's height at another place in the column
/// keeps the heights and so the fill: the column lays out again from the top, pane after pane.
pub proof fn law_reordering_keeps_the_column_tiled(c: ColumnModel, from: int, to: int, viewport: Viewport)
    requires
        column_tiles(c.panes, viewport),
        viewport.y + viewport.rows <= usize::MAX,
        0 <= from < c.panes.len(),
        0 <= to < c.panes.len(),
    ensures
        stack_column(
            ColumnModel { x: c.x, cols: c.cols, panes: c.panes.remove(from).insert(to, c.panes[from]) },
            viewport,
        ) matches Ok(c2) && column_tiles(c2.panes, viewport)
            && c2.panes.len() == c.panes.len()
            && (forall|k: int| 0 <= k < c.panes.len() ==> (#[trigger] c2.panes[k]).pane_id == c.panes.remove(from).insert(to, c.panes[from])[k].pane_id),
{
    let rest = c.panes.remove(from);
    let reordered = rest.insert(to, c.panes[from]);
    assert(heights_of(rest) =~= heights_of(c.panes).remove(from));
    lemma_sum_remove(heights_of(c.panes), from);
    assert(heights_of(reordered) =~= heights_of(rest).insert(to, heights_of(c.panes)[from]));
    lemma_sum_insert(heights_of(rest), to, heights_of(c.panes)[from]);
    assert(sum(heights_of(reordered)) == viewport.rows);
    assert(cells_of(rows_of(reordered)) =~= heights_of(reordered));
    lemma_restacked_tiles(reordered, rows_of(reordered), viewport);
}

/// A column given equal shares of the viewport's height (as the columns a pane moves out of and
/// into are) fills the height from its top, pane after pane, whenever the shares fill it.
pub proof fn law_equalized_columns_are_tiled(c: ColumnModel, viewport: Viewport)
    requires
        viewport.y + viewport.rows <= usize::MAX,
    ensures
        equalize_column(c, viewport) matches Ok(c2) ==> column_tiles(c2.panes, viewport)
            && c2.panes.len() == c.panes.len(),
{
    let existing = heights_of(c.panes);
    let h = equalized_rows(existing, viewport.rows as int);
    if sum(h) == viewport.rows {
        let one = ACME_COLLAPSED_PANE_ROWS as int;
        let collapsed = count_eq(existing, one) as int;
        lemma_count_eq_bound(existing, one);
        assert(h.len() == existing.len());
        assert forall|k: int| 0 <= k < h.len() implies 0 <= #[trigger] h[k] by {
            if collapsed < existing.len() && existing[k] != one {
                assert(existing.take(k + 1).drop_last() =~= existing.take(k));
                let expanded = existing.len() - collapsed;
                let total = if viewport.rows >= collapsed { viewport.rows - collapsed } else { 0 };
                let j = k - count_eq(existing.take(k), one);
                assert(existing.take(k + 1).last() == existing[k]);
                assert(count_eq(existing.take(k + 1), one) == count_eq(existing.take(k), one));
                assert((k + 1) - count_eq(existing.take(k + 1), one) <= existing.len() - collapsed);
                lemma_count_eq_bound(existing.take(k), one);
                assert(0 <= j < expanded);
                assert(equalized(total, expanded)[j] >= 0) by (nonlinear_arith)
                    requires
                        expanded > 0,
                        total >= 0,
                        0 <= j < expanded,
                        equalized(total, expanded)[j] == total / expanded + if j < total % expanded { 1int } else { 0 },
                ;
            }
        }
        assert forall|k: int| 0 <= k < h.len() implies 0 <= #[trigger] h[k] <= usize::MAX by {
            lemma_elem_le_sum(h, k);
        }
        lemma_cells_of_dims(h, viewport.rows);
        lemma_restacked_tiles(c.panes, dims_of(h, viewport.rows), viewport);
    }
}


/// Reordering puts the dragged pane right below the pane it is released on when dragged
/// down, right above it when dragged up; the column keeps its panes, the others in their
/// order.
pub proof fn law_reordering_places_the_pane_beside_the_target(
    panes: Seq<AcmePaneGeometry>,
    id: PaneId,
    tid: PaneId,
    down: bool,
)
    requires
        ids_of(panes).contains(id),
        ids_of(panes).contains(tid),
        id != tid,
    ensures
        ({
            let r = reordered_beside(panes, id, tid, down);
            let spi = index_of(ids_of(panes), id)->0;
            &&& r.len() == panes.len()
            &&& exists|k: int| #![trigger r[k]] 0 <= k < r.len() && r[k] == panes[spi] && r[k].pane_id == id
                && r.remove(k) == panes.remove(spi)
                && (down ==> 0 < k && r[k - 1].pane_id == tid)
                && (!down ==> k + 1 < r.len() && r[k + 1].pane_id == tid)
        }),
{
    let ids = ids_of(panes);
    lemma_index_of(ids, id, 0);
    let spi = index_of(ids, id)->0;
    let rest = panes.remove(spi);
    let tk = choose|k: int| 0 <= k < ids.len() && ids[k] == tid;
    assert(tk != spi);
    let tr = if tk < spi { tk } else { tk - 1 };
    assert(ids_of(rest)[tr] == tid);
    lemma_index_of(ids_of(rest), tid, 0);
    let t2 = index_of(ids_of(rest), tid)->0;
    let ins = if down { t2 + 1 } else { t2 };
    let r = rest.insert(ins, panes[spi]);
    assert(r == reordered_beside(panes, id, tid, down));
    assert(r.remove(ins) =~= rest);
    assert(r[ins] == panes[spi]);
    if down {
        assert(r[ins - 1] == rest[t2]);
    } else {
        assert(r[ins + 1] == rest[t2]);
    }
}


/// A resize of pane `i` by `delta` rows moves them between that pane and its neighbour on the
/// side it names, the nearest pane giving first: growing up takes them from the pane above,
/// shrinking up gives them to the pane above, growing down takes them from the pane below, and
/// shrinking down gives them to the pane below. When the giving pane has the rows to spare
/// beyond its title line, exactly those two heights change, by exactly `delta`. A resize
/// without an up or down direction moves nothing.
pub proof fn law_resizing_moves_rows_between_neighbours(h: Seq<int>, i: int, strategy: ResizeStrategy, delta: int)
    requires
        0 <= i < h.len(),
        delta > 0,
    ensures
        strategy.resize == Resize::Increase && strategy.direction == Some(Direction::Up) && i >= 1
            && h[i - 1] >= delta + ACME_COLLAPSED_PANE_ROWS ==> resized_heights(h, i, strategy, delta)
            == Some(h.update(i - 1, h[i - 1] - delta).update(i, h[i] + delta)),
        strategy.resize == Resize::Decrease && strategy.direction == Some(Direction::Up) && i >= 1
            && h[i] >= delta + ACME_COLLAPSED_PANE_ROWS ==> resized_heights(h, i, strategy, delta)
            == Some(h.update(i, h[i] - delta).update(i - 1, h[i - 1] + delta)),
        strategy.resize == Resize::Increase && strategy.direction == Some(Direction::Down) && i + 1 < h.len()
            && h[i + 1] >= delta + ACME_COLLAPSED_PANE_ROWS ==> resized_heights(h, i, strategy, delta)
            == Some(h.update(i + 1, h[i + 1] - delta).update(i, h[i] + delta)),
        strategy.resize == Resize::Decrease && strategy.direction == Some(Direction::Down) && i + 1 < h.len()
            && h[i] >= delta + ACME_COLLAPSED_PANE_ROWS ==> resized_heights(h, i, strategy, delta)
            == Some(h.update(i, h[i] - delta).update(i + 1, h[i + 1] + delta)),
        !(strategy.direction == Some(Direction::Up) || strategy.direction == Some(Direction::Down))
            ==> resized_heights(h, i, strategy, delta) is None,
{
    let n = h.len() as int;
    if i >= 1 {
        assert(desc_range(i)[0] == i - 1);
    }
    assert(asc_range(i, n)[0] == i);
    if i + 1 < n {
        assert(asc_range(i + 1, n)[0] == i + 1);
    }
    assert(desc_range(i + 1)[0] == i);
}


/// Closing the pane at `pi` of a column gives all its rows to one pane, and every other pane
/// keeps its height: the nearest pane above it that shows more than its title line, or, when
/// no pane above does, the nearest such pane below it. (`left` are the heights of the panes
/// that stay, in order; the pane below the closed one is at `pi` among them.)
pub proof fn law_closing_a_pane_gives_its_rows_to_the_nearest_open_pane(panes: Seq<AcmePaneGeometry>, pi: int, r: int)
    requires
        0 <= pi < panes.len(),
        0 <= r < panes.len() - 1,
        heights_of(panes.remove(pi))[r] > ACME_COLLAPSED_PANE_ROWS,
        r < pi ==> forall|j: int| r < j < pi ==> #[trigger] heights_of(panes.remove(pi))[j] <= ACME_COLLAPSED_PANE_ROWS,
        r >= pi ==> forall|j: int| 0 <= j < r ==> #[trigger] heights_of(panes.remove(pi))[j] <= ACME_COLLAPSED_PANE_ROWS,
    ensures
        heights_after_removing(panes, pi) == heights_of(panes.remove(pi)).update(
            r,
            heights_of(panes.remove(pi))[r] + panes[pi].geom.rows.cells(),
        ),
{
    let h = heights_of(panes.remove(pi));
    lemma_first_open_at(h, 0, r);
    if r < pi {
        lemma_last_open_at(h, pi - 1, r);
    } else {
        if pi >= 1 {
            lemma_none_open_at_or_above(h, pi - 1);
        }
        lemma_first_open_at(h, pi, r);
    }
}

proof fn lemma_last_open_at(h: Seq<int>, i: int, r: int)
    requires
        0 <= r <= i < h.len(),
        h[r] > ACME_COLLAPSED_PANE_ROWS,
        forall|j: int| r < j <= i ==> #[trigger] h[j] <= ACME_COLLAPSED_PANE_ROWS,
    ensures
        last_open_at_or_above(h, i) == Some(r),
    decreases i - r,
{
    if i > r {
        lemma_last_open_at(h, i - 1, r);
    }
}

proof fn lemma_none_open_at_or_above(h: Seq<int>, i: int)
    requires
        i < h.len(),
        forall|j: int| 0 <= j <= i ==> #[trigger] h[j] <= ACME_COLLAPSED_PANE_ROWS,
    ensures
        last_open_at_or_above(h, i) is None,
    decreases i + 1,
{
    if i >= 0 {
        lemma_none_open_at_or_above(h, i - 1);
    }
}

/// With `r` open, the first open pane from `i` is `r` when none between is open, and there is one
/// in any case.
proof fn lemma_first_open_at(h: Seq<int>, i: int, r: int)
    requires
        0 <= i,
        0 <= r < h.len(),
        h[r] > ACME_COLLAPSED_PANE_ROWS,
    ensures
        i <= r ==> first_open_from(h, i) is Some,
        i <= r && (forall|j: int| i <= j < r ==> #[trigger] h[j] <= ACME_COLLAPSED_PANE_ROWS) ==> first_open_from(h, i) == Some(r),
    decreases h.len() - i,
{
    if i < r {
        lemma_first_open_at(h, i + 1, r);
    }
}


/// Closing a pane of a column whose other panes all show only their title line gives its rows
/// to the pane that takes its place, or, when it was the last pane, to the pane above it.
pub proof fn law_closing_a_pane_among_collapsed_ones(panes: Seq<AcmePaneGeometry>, pi: int)
    requires
        0 <= pi < panes.len(),
        panes.len() >= 2,
        forall|j: int| 0 <= j < panes.len() - 1 ==> #[trigger] heights_of(panes.remove(pi))[j] <= ACME_COLLAPSED_PANE_ROWS,
    ensures
        ({
            let left = heights_of(panes.remove(pi));
            let r = if pi < panes.len() - 1 { pi } else { pi - 1 };
            heights_after_removing(panes, pi) == left.update(r, left[r] + panes[pi].geom.rows.cells())
        }),
{
    let h = heights_of(panes.remove(pi));
    lemma_none_open_from(h, 0);
}

proof fn lemma_none_open_from(h: Seq<int>, i: int)
    requires
        0 <= i,
        forall|j: int| 0 <= j < h.len() ==> #[trigger] h[j] <= ACME_COLLAPSED_PANE_ROWS,
    ensures
        first_open_from(h, i) is None,
    decreases h.len() - i,
{
    if i < h.len() {
        lemma_none_open_from(h, i + 1);
    }
}


/// Moving rows from the donors, in their order, to the pane at `r`: only donors lose rows and
/// only `r` gains; no donor loses its title line; `r` gains at most `remaining`, and less only
/// when every donor is down to its title line; and a donor gives only when every donor before
/// it is down to its title line.
proof fn lemma_transfer_drains_in_order(h: Seq<int>, donors: Seq<int>, r: int, remaining: int)
    requires
        0 <= r < h.len(),
        remaining > 0,
        donors.no_duplicates(),
        forall|p: int| 0 <= p < donors.len() ==> 0 <= #[trigger] donors[p] < h.len() && donors[p] != r,
    ensures
        ({
            let (h2, changed) = transfer(h, donors, r, remaining);
            &&& h2.len() == h.len()
            &&& forall|k: int| 0 <= k < h.len() && !donors.contains(k) && k != r ==> #[trigger] h2[k] == h[k]
            &&& forall|p: int| 0 <= p < donors.len() ==> #[trigger] h2[donors[p]] <= h[donors[p]]
                && (h[donors[p]] >= ACME_COLLAPSED_PANE_ROWS ==> h2[donors[p]] >= ACME_COLLAPSED_PANE_ROWS)
            &&& 0 <= h2[r] - h[r] <= remaining
            &&& h2[r] - h[r] < remaining ==> forall|p: int| 0 <= p < donors.len() ==> #[trigger] h2[donors[p]]
                <= ACME_COLLAPSED_PANE_ROWS
            &&& forall|p: int, q: int| 0 <= p < q < donors.len() && #[trigger] h2[donors[q]] < h[donors[q]]
                ==> #[trigger] h2[donors[p]] <= ACME_COLLAPSED_PANE_ROWS
            &&& changed == (h2[r] > h[r])
            &&& !changed ==> h2 == h
        }),
    decreases donors.len(),
{
    if donors.len() > 0 {
        let d = donors[0];
        let rest = donors.drop_first();
        assert forall|p: int| 0 <= p < rest.len() implies 0 <= #[trigger] rest[p] < h.len() && rest[p] != r by {
            assert(rest[p] == donors[p + 1]);
        }
        assert(rest.no_duplicates()) by {
            assert forall|a: int, b: int| 0 <= a < b < rest.len() implies rest[a] != rest[b] by {
                assert(rest[a] == donors[a + 1] && rest[b] == donors[b + 1]);
            }
        }
        assert(!rest.contains(d)) by {
            if rest.contains(d) {
                let q = choose|q: int| 0 <= q < rest.len() && rest[q] == d;
                assert(donors[q + 1] == d);
            }
        }
        assert forall|k: int| donors.contains(k) && k != d implies rest.contains(k) by {
            let q = choose|q: int| 0 <= q < donors.len() && donors[q] == k;
            assert(rest[q - 1] == k);
        }
        let t = min_int(remaining, spare_rows(h[d]));
        if t <= 0 {
            lemma_transfer_drains_in_order(h, rest, r, remaining);
            let h2 = transfer(h, rest, r, remaining).0;
            assert(h2[d] == h[d]);
            assert forall|p: int| 0 <= p < donors.len() implies #[trigger] h2[donors[p]] <= h[donors[p]]
                && (h[donors[p]] >= ACME_COLLAPSED_PANE_ROWS ==> h2[donors[p]] >= ACME_COLLAPSED_PANE_ROWS) by {
                if p > 0 {
                    assert(donors[p] == rest[p - 1]);
                }
            }
            assert forall|p: int, q: int| 0 <= p < q < donors.len() && #[trigger] h2[donors[q]] < h[donors[q]]
                implies #[trigger] h2[donors[p]] <= ACME_COLLAPSED_PANE_ROWS by {
                assert(donors[q] == rest[q - 1]);
                if p > 0 {
                    assert(donors[p] == rest[p - 1]);
                }
            }
            assert forall|p: int| 0 <= p < donors.len() && h2[r] - h[r] < remaining implies #[trigger] h2[donors[p]]
                <= ACME_COLLAPSED_PANE_ROWS by {
                if p > 0 {
                    assert(donors[p] == rest[p - 1]);
                }
            }
        } else {
            let hm = h.update(d, h[d] - t).update(r, h[r] + t);
            if remaining - t == 0 {
                assert forall|p: int, q: int| 0 <= p < q < donors.len() && #[trigger] hm[donors[q]] < h[donors[q]]
                    implies #[trigger] hm[donors[p]] <= ACME_COLLAPSED_PANE_ROWS by {
                    assert(donors[q] != d);
                }
            } else {
                assert(hm[d] <= ACME_COLLAPSED_PANE_ROWS);
                lemma_transfer_drains_in_order(hm, rest, r, remaining - t);
                let h2 = transfer(hm, rest, r, remaining - t).0;
                assert(h2[d] == hm[d]);
                assert forall|p: int| 0 <= p < donors.len() implies #[trigger] h2[donors[p]] <= h[donors[p]]
                    && (h[donors[p]] >= ACME_COLLAPSED_PANE_ROWS ==> h2[donors[p]] >= ACME_COLLAPSED_PANE_ROWS) by {
                    if p > 0 {
                        assert(donors[p] == rest[p - 1]);
                        assert(hm[donors[p]] == h[donors[p]]);
                    }
                }
                assert forall|k: int| 0 <= k < h.len() && !donors.contains(k) && k != r implies #[trigger] h2[k] == h[k] by {
                    assert(!rest.contains(k));
                    assert(k != d);
                }
                assert forall|p: int, q: int| 0 <= p < q < donors.len() && #[trigger] h2[donors[q]] < h[donors[q]]
                    implies #[trigger] h2[donors[p]] <= ACME_COLLAPSED_PANE_ROWS by {
                    assert(donors[q] == rest[q - 1]);
                    assert(hm[donors[q]] == h[donors[q]]);
                    if p > 0 {
                        assert(donors[p] == rest[p - 1]);
                    }
                }
                assert forall|p: int| 0 <= p < donors.len() && h2[r] - h[r] < remaining implies #[trigger] h2[donors[p]]
                    <= ACME_COLLAPSED_PANE_ROWS by {
                    if p > 0 {
                        assert(donors[p] == rest[p - 1]);
                    }
                }
            }
        }
    }
}



/// Whether pane `j` of a column of `n` panes is on the side that gives rows in a resize of
/// pane `i`: above it when it grows up, it and those below when it shrinks up, below it when it
/// grows down, it and those above when it shrinks down.
pub open spec fn on_giving_side(strategy: ResizeStrategy, i: int, n: int, j: int) -> bool {
    match (strategy.resize, strategy.direction) {
        (Resize::Increase, Some(Direction::Up)) => 0 <= j < i,
        (Resize::Decrease, Some(Direction::Up)) => i <= j < n,
        (Resize::Increase, Some(Direction::Down)) => i < j < n,
        (Resize::Decrease, Some(Direction::Down)) => 0 <= j <= i,
        _ => false,
    }
}

/// The pane that takes the rows in a resize of pane `i`: the pane itself when it grows, the
/// pane above when it shrinks up, the pane below when it shrinks down.
pub open spec fn taking_pane(strategy: ResizeStrategy, i: int) -> int {
    match (strategy.resize, strategy.direction) {
        (Resize::Decrease, Some(Direction::Up)) => i - 1,
        (Resize::Decrease, Some(Direction::Down)) => i + 1,
        _ => i,
    }
}

/// Whether pane `a` is nearer than pane `b` to the pane that takes the rows (both on the
/// giving side).
pub open spec fn nearer_to_taker(strategy: ResizeStrategy, a: int, b: int) -> bool {
    match (strategy.resize, strategy.direction) {
        (Resize::Increase, Some(Direction::Up)) => a > b,
        (Resize::Decrease, Some(Direction::Down)) => a > b,
        _ => a < b,
    }
}

/// A resize of pane `i` by `delta` rows takes rows only from the panes on its giving side and
/// gives them only to its taking pane; every other height stays. No giving pane loses its title
/// line, and the nearest giving panes give first: a farther pane gives only once every nearer
/// one is down to its title line. The taking pane gains at most `delta`, and less only when
/// every giving pane is down to its title line; the total stays. Nothing changes (no result)
/// only when no giving pane has a row to spare.
pub proof fn law_resizing_drains_the_nearest_panes_first(h: Seq<int>, i: int, strategy: ResizeStrategy, delta: int)
    requires
        0 <= i < h.len(),
        delta > 0,
        forall|k: int| 0 <= k < h.len() ==> h[k] >= 0,
    ensures
        ({
            let n = h.len() as int;
            let t = taking_pane(strategy, i);
            match resized_heights(h, i, strategy, delta) {
                Some(h2) => {
                    &&& 0 <= t < n
                    &&& h2.len() == n
                    &&& forall|j: int| 0 <= j < n && !on_giving_side(strategy, i, n, j) && j != t ==> #[trigger] h2[j] == h[j]
                    &&& forall|j: int| #[trigger] on_giving_side(strategy, i, n, j) ==> h2[j] <= h[j]
                        && (h[j] >= ACME_COLLAPSED_PANE_ROWS ==> h2[j] >= ACME_COLLAPSED_PANE_ROWS)
                    &&& 0 < h2[t] - h[t] <= delta
                    &&& h2[t] - h[t] < delta ==> forall|j: int| #[trigger] on_giving_side(strategy, i, n, j)
                        ==> h2[j] <= ACME_COLLAPSED_PANE_ROWS
                    &&& forall|a: int, b: int| on_giving_side(strategy, i, n, a) && on_giving_side(strategy, i, n, b)
                        && nearer_to_taker(strategy, a, b) && #[trigger] h2[b] < h[b] ==> #[trigger] h2[a]
                        <= ACME_COLLAPSED_PANE_ROWS
                    &&& sum(h2) == sum(h)
                },
                None => (strategy.direction == Some(Direction::Up) || strategy.direction == Some(Direction::Down))
                    && 0 <= t < n ==> forall|j: int| #[trigger] on_giving_side(strategy, i, n, j) ==> h[j]
                    <= ACME_COLLAPSED_PANE_ROWS,
            }
        }),
{
    let n = h.len() as int;
    match resize_donors(strategy, i, n) {
        None => {},
        Some((donors, r)) => {
            // The donors are the giving side, nearest first.
            assert(forall|p: int| 0 <= p < donors.len() ==> on_giving_side(strategy, i, n, #[trigger] donors[p]));
            assert forall|j: int| #[trigger] on_giving_side(strategy, i, n, j) implies donors.contains(j) by {
                let p = match (strategy.resize, strategy.direction) {
                    (Resize::Increase, Some(Direction::Up)) => i - 1 - j,
                    (Resize::Decrease, Some(Direction::Up)) => j - i,
                    (Resize::Increase, Some(Direction::Down)) => j - i - 1,
                    _ => i - j,
                };
                assert(donors[p] == j);
            }
            assert(donors.no_duplicates());
            assert(r == taking_pane(strategy, i));
            if 0 <= r < n {
                lemma_transfer_drains_in_order(h, donors, r, delta);
                lemma_transfer_keeps_total(h, donors, r, delta);
                let h2 = transfer(h, donors, r, delta).0;
                assert forall|a: int, b: int| on_giving_side(strategy, i, n, a) && on_giving_side(strategy, i, n, b)
                    && nearer_to_taker(strategy, a, b) && #[trigger] h2[b] < h[b] implies #[trigger] h2[a]
                    <= ACME_COLLAPSED_PANE_ROWS by {
                    let (pa, pb) = match (strategy.resize, strategy.direction) {
                        (Resize::Increase, Some(Direction::Up)) => (i - 1 - a, i - 1 - b),
                        (Resize::Decrease, Some(Direction::Up)) => (a - i, b - i),
                        (Resize::Increase, Some(Direction::Down)) => (a - i - 1, b - i - 1),
                        _ => (i - a, i - b),
                    };
                    assert(donors[pa] == a && donors[pb] == b);
                }
                assert forall|j: int| 0 <= j < n && !on_giving_side(strategy, i, n, j) && j != r implies #[trigger] h2[j] == h[j] by {
                    if donors.contains(j) {
                        let p = choose|p: int| 0 <= p < donors.len() && donors[p] == j;
                        assert(on_giving_side(strategy, i, n, donors[p]));
                    }
                }
                if !transfer(h, donors, r, delta).1 {
                    assert forall|j: int| #[trigger] on_giving_side(strategy, i, n, j) implies h[j] <= ACME_COLLAPSED_PANE_ROWS by {
                        let p = choose|p: int| 0 <= p < donors.len() && donors[p] == j;
                        assert(h2[donors[p]] == h2[j]);
                    }
                }
                assert forall|j: int| #[trigger] on_giving_side(strategy, i, n, j) implies h2[j] <= h[j]
                    && (h[j] >= ACME_COLLAPSED_PANE_ROWS ==> h2[j] >= ACME_COLLAPSED_PANE_ROWS)
                    && (h2[r] - h[r] < delta ==> h2[j] <= ACME_COLLAPSED_PANE_ROWS) by {
                    let p = choose|p: int| 0 <= p < donors.len() && donors[p] == j;
                    assert(h2[donors[p]] == h2[j]);
                }
            }
        },
    }
}

} // verus!
