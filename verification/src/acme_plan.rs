use vstd::prelude::*;
use crate::geom::{Dimension, PaneGeom, PaneId, Viewport};
use crate::acme::{
    AcmeColumn, AcmePaneGeometry, AcmePaneRowsSnapshot, ColumnModel, ACME_COLLAPSED_PANE_ROWS,
    equalized, equalized_lengths, heights_of, ids_of, lemma_sum_nonneg, lemma_sum_take_step,
    rows_dimension, acme_rows_dimension, sum, lemma_equalized_sum,
};
use crate::acme_lookup::{
    column_with_pane, find_column_with_pane, index_of, lemma_column_with_pane_found,
    lemma_index_of, neighbor_focus_target, acme_neighbor_focus_target,
};

verus! {

/// Why an Acme layout change could not be planned.
#[derive(Clone, Copy, Debug, PartialEq, Eq, Structural)]
pub enum AcmeError {
    /// The focused pane is in no Acme column.
    FocusedPaneNotInAcmeColumn,
    /// The pane is in no Acme column.
    PaneNotInAcmeColumn,
    NotEnoughRoomToMaximize,
    NotEnoughRoomToMinimize,
    NotEnoughRoomToMove,
    /// The planned heights of a column do not add up to the viewport's height.
    ColumnDoesNotFillHeight,
    /// A removed column left no column to take its width.
    NoColumnForRemovedWidth,
    /// The planned widths of the columns do not add up to the viewport's width.
    ColumnsDoNotFillWidth,
}

/// A planned layout: each pane with the geometry it is to take.
pub type AcmePlan = Vec<(PaneId, PaneGeom)>;

/// The cells taken by each of a sequence of dimensions.
pub open spec fn cells_of(rows: Seq<Dimension>) -> Seq<int> {
    rows.map_values(|d: Dimension| d.cells() as int)
}

/// A pane geometry moved to line `y`, given height `rows`, and taken out of any stack.
pub open spec fn restacked_geom(g: PaneGeom, y: int, rows: Dimension) -> PaneGeom {
    PaneGeom { x: g.x, y: y as usize, cols: g.cols, rows, stacked: None }
}

/// Panes given the heights `rows` and laid out one below the other from line `y0`.
pub open spec fn restacked(panes: Seq<AcmePaneGeometry>, rows: Seq<Dimension>, y0: int) -> Seq<
    AcmePaneGeometry,
> {
    Seq::new(
        panes.len(),
        |i: int|
            AcmePaneGeometry {
                pane_id: panes[i].pane_id,
                geom: restacked_geom(panes[i].geom, y0 + sum(cells_of(rows).take(i)), rows[i]),
            },
    )
}

/// A column's panes as a plan.
pub open spec fn plan_of(panes: Seq<AcmePaneGeometry>) -> Seq<(PaneId, PaneGeom)> {
    panes.map_values(|p: AcmePaneGeometry| (p.pane_id, p.geom))
}

/// The current heights of panes as dimensions.
pub open spec fn rows_of(panes: Seq<AcmePaneGeometry>) -> Seq<Dimension> {
    panes.map_values(|p: AcmePaneGeometry| p.geom.rows)
}

pub proof fn lemma_cells_take(rows: Seq<Dimension>, k: int)
    requires
        0 <= k < rows.len(),
    ensures
        sum(cells_of(rows).take(k + 1)) == sum(cells_of(rows).take(k)) + rows[k].cells(),
        sum(cells_of(rows).take(k)) <= sum(cells_of(rows)),
        sum(cells_of(rows).take(k + 1)) <= sum(cells_of(rows)),
{
    lemma_sum_take_step(cells_of(rows), k);
    lemma_sum_nonneg(cells_of(rows));
}

/// Lays the panes out one below the other from line `y0` with the heights `rows`, and
/// returns the line below the last pane.
pub(crate) fn restack(panes: &mut Vec<AcmePaneGeometry>, rows: &Vec<Dimension>, y0: usize) -> (end: usize)
    requires
        old(panes)@.len() == rows@.len(),
        y0 + sum(cells_of(rows@)) <= usize::MAX,
    ensures
        final(panes)@ == restacked(old(panes)@, rows@, y0 as int),
        end == y0 + sum(cells_of(rows@)),
{
    let ghost before = panes@;
    let mut next_y = y0;
    let mut i: usize = 0;
    while i < panes.len()
        invariant
            panes@.len() == before.len(),
            before.len() == rows@.len(),
            i <= panes@.len(),
            next_y == y0 + sum(cells_of(rows@).take(i as int)),
            y0 + sum(cells_of(rows@)) <= usize::MAX,
            forall|j: int| 0 <= j < i ==> panes@[j] == restacked(before, rows@, y0 as int)[j],
            forall|j: int| i <= j < panes@.len() ==> panes@[j] == before[j],
        decreases panes@.len() - i,
    {
        proof {
            lemma_cells_take(rows@, i as int);
        }
        let p = panes[i];
        let r = rows[i].as_usize();
        let g = PaneGeom { x: p.geom.x, y: next_y, cols: p.geom.cols, rows: rows[i], stacked: None };
        panes.set(i, AcmePaneGeometry { pane_id: p.pane_id, geom: g });
        next_y = next_y + r;
        i += 1;
    }
    assert(cells_of(rows@).take(i as int) =~= cells_of(rows@));
    assert(panes@ =~= restacked(before, rows@, y0 as int));
    next_y
}

/// Copies a column's panes into a plan.
pub(crate) fn plan_from(panes: &Vec<AcmePaneGeometry>) -> (plan: AcmePlan)
    ensures
        plan@ == plan_of(panes@),
{
    let mut plan: AcmePlan = Vec::new();
    let mut i: usize = 0;
    while i < panes.len()
        invariant
            i <= panes@.len(),
            plan@ == plan_of(panes@.take(i as int)),
        decreases panes@.len() - i,
    {
        plan.push((panes[i].pane_id, panes[i].geom));
        i += 1;
        assert(plan@ =~= plan_of(panes@.take(i as int)));
    }
    assert(panes@.take(i as int) =~= panes@);
    plan
}

/// A copy of a column's panes.
pub(crate) fn copy_panes(panes: &Vec<AcmePaneGeometry>) -> (r: Vec<AcmePaneGeometry>)
    ensures
        r@ == panes@,
{
    let mut r: Vec<AcmePaneGeometry> = Vec::new();
    let mut i: usize = 0;
    while i < panes.len()
        invariant
            i <= panes@.len(),
            r@ == panes@.take(i as int),
        decreases panes@.len() - i,
    {
        r.push(panes[i]);
        i += 1;
        assert(r@ =~= panes@.take(i as int));
    }
    assert(panes@.take(i as int) =~= panes@);
    r
}

/// The coordinates of a column fit the machine: its panes, their heights, one pane more and the
/// viewport's bottom line stay below the largest `isize`.
pub open spec fn column_fits(c: ColumnModel, viewport: Viewport) -> bool {
    viewport.y + viewport.rows + sum(heights_of(c.panes)) + c.panes.len() + 1 <= isize::MAX
}

/// The widths of the columns.
pub open spec fn widths_of(columns: Seq<ColumnModel>) -> Seq<int> {
    columns.map_values(|c: ColumnModel| c.cols as int)
}

/// The Acme columns hold each pane once per column, and their coordinates fit the machine.
pub open spec fn layout_fits(columns: Seq<ColumnModel>, viewport: Viewport) -> bool {
    &&& viewport.y + viewport.rows <= isize::MAX
    &&& viewport.x + viewport.cols + sum(widths_of(columns)) <= usize::MAX
    &&& forall|i: int| 0 <= i < columns.len() ==> column_fits(#[trigger] columns[i], viewport)
    &&& forall|i: int| 0 <= i < columns.len() ==> ids_of(#[trigger] columns[i].panes).no_duplicates()
}

/// Every plan lays a column's panes out one below the other from the viewport's top: the first
/// starts there, each next one starts where the one above ends, and the last ends where the
/// heights add up to.
pub proof fn law_restacked_panes_abut(panes: Seq<AcmePaneGeometry>, rows: Seq<Dimension>, y0: int)
    requires
        panes.len() == rows.len(),
        panes.len() > 0,
        0 <= y0,
        y0 + sum(cells_of(rows)) <= usize::MAX,
    ensures
        restacked(panes, rows, y0)[0].geom.y == y0,
        forall|i: int|
            0 <= i < panes.len() - 1 ==> #[trigger] restacked(panes, rows, y0)[i + 1].geom.y
                == restacked(panes, rows, y0)[i].geom.y + rows[i].cells(),
        restacked(panes, rows, y0)[panes.len() - 1].geom.y + rows[panes.len() - 1].cells() == y0
            + sum(cells_of(rows)),
        forall|i: int|
            0 <= i < panes.len() ==> (#[trigger] restacked(panes, rows, y0)[i]).geom.rows == rows[i]
                && restacked(panes, rows, y0)[i].pane_id == panes[i].pane_id
                && restacked(panes, rows, y0)[i].geom.stacked is None,
{
    let r = restacked(panes, rows, y0);
    assert(cells_of(rows).take(0) =~= Seq::<int>::empty());
    assert forall|i: int| 0 <= i < panes.len() - 1 implies #[trigger] r[i + 1].geom.y == r[i].geom.y
        + rows[i].cells() by {
        lemma_cells_take(rows, i);
        lemma_cells_take(rows, i + 1);
        lemma_sum_nonneg(cells_of(rows).take(i));
        lemma_sum_nonneg(cells_of(rows).take(i + 1));
    }
    let n = panes.len() - 1;
    lemma_cells_take(rows, n);
    lemma_sum_nonneg(cells_of(rows).take(n));
    assert(cells_of(rows).take(n + 1) =~= cells_of(rows));
}

// ---------------------------------------------------------------------------------------------
// Maximizing
// ---------------------------------------------------------------------------------------------

/// The heights of a maximized column: the target takes `focused` rows, the others one each.
pub open spec fn maximized_rows(panes: Seq<AcmePaneGeometry>, target: PaneId, focused: int, viewport_rows: int) -> Seq<Dimension> {
    panes.map_values(
        |p: AcmePaneGeometry|
            if p.pane_id == target {
                Dimension::Percent { inner: focused as usize, full: viewport_rows as usize }
            } else {
                Dimension::Fixed(ACME_COLLAPSED_PANE_ROWS)
            },
    )
}

/// The plan that maximizes a pane: every other pane of its column collapses to its title line.
pub open spec fn maximize_plan(columns: Seq<ColumnModel>, target: PaneId, viewport: Viewport) -> Result<Seq<(PaneId, PaneGeom)>, AcmeError> {
    match column_with_pane(columns, target) {
        None => Err(AcmeError::FocusedPaneNotInAcmeColumn),
        Some(ci) => {
            let panes = columns[ci].panes;
            let collapsed = (panes.len() - 1) * ACME_COLLAPSED_PANE_ROWS;
            if panes.len() == 1 {
                Ok(Seq::empty())
            } else if viewport.rows <= collapsed {
                Err(AcmeError::NotEnoughRoomToMaximize)
            } else {
                Ok(plan_of(restacked(panes, maximized_rows(panes, target, viewport.rows - collapsed, viewport.rows as int), viewport.y as int)))
            }
        },
    }
}

pub proof fn lemma_count_one_sum(panes: Seq<AcmePaneGeometry>, target: PaneId, focused: int, vrows: int, k: int)
    requires
        ids_of(panes).no_duplicates(),
        0 <= focused <= vrows <= usize::MAX,
        0 <= k <= panes.len(),
    ensures
        sum(cells_of(maximized_rows(panes, target, focused, vrows)).take(k)) <= focused + k,
    decreases k,
{
    let rows = maximized_rows(panes, target, focused, vrows);
    if k > 0 {
        lemma_count_one_sum(panes, target, focused, vrows, k - 1);
        lemma_cells_take(rows, k - 1);
        if panes[k - 1].pane_id == target {
            // the target occurs once, so every earlier pane is collapsed
            lemma_all_collapsed_before(panes, target, focused, vrows, k - 1, k - 1);
        }
    }
}

proof fn lemma_all_collapsed_before(panes: Seq<AcmePaneGeometry>, target: PaneId, focused: int, vrows: int, t: int, j: int)
    requires
        ids_of(panes).no_duplicates(),
        0 <= focused <= vrows <= usize::MAX,
        0 <= j <= t < panes.len(),
        panes[t].pane_id == target,
    ensures
        sum(cells_of(maximized_rows(panes, target, focused, vrows)).take(j)) == j,
    decreases j,
{
    let rows = maximized_rows(panes, target, focused, vrows);
    if j > 0 {
        lemma_all_collapsed_before(panes, target, focused, vrows, t, j - 1);
        lemma_cells_take(rows, j - 1);
        assert(ids_of(panes)[j - 1] != ids_of(panes)[t]);
    }
}

pub fn acme_geometries_after_maximizing_pane(
    columns: &[AcmeColumn],
    target_pane_id: PaneId,
    viewport: Viewport,
) -> (r: Result<AcmePlan, AcmeError>)
    requires
        layout_fits(columns@.map_values(|c: AcmeColumn| c@), viewport),
    ensures
        match r {
            Ok(plan) => maximize_plan(columns@.map_values(|c: AcmeColumn| c@), target_pane_id, viewport) == Ok::<Seq<(PaneId, PaneGeom)>, AcmeError>(plan@),
            Err(e) => maximize_plan(columns@.map_values(|c: AcmeColumn| c@), target_pane_id, viewport) == Err::<Seq<(PaneId, PaneGeom)>, AcmeError>(e),
        },
{
    let ghost models = columns@.map_values(|c: AcmeColumn| c@);
    let ci = match find_column_with_pane(columns, target_pane_id) {
        Some(ci) => ci,
        None => return Err(AcmeError::FocusedPaneNotInAcmeColumn),
    };
    proof {
        lemma_column_with_pane_found(models, target_pane_id, 0);
    }
    let column = &columns[ci];
    let n = column.pane_geometries.len();
    if n == 1 {
        return Ok(Vec::new());
    }
    let collapsed_rows = (n - 1) * ACME_COLLAPSED_PANE_ROWS;
    if viewport.rows <= collapsed_rows {
        return Err(AcmeError::NotEnoughRoomToMaximize);
    }
    let focused_rows = viewport.rows - collapsed_rows;
    let mut rows: Vec<Dimension> = Vec::new();
    let mut i: usize = 0;
    while i < n
        invariant
            n == column.pane_geometries@.len(),
            i <= n,
            rows@ == maximized_rows(column.pane_geometries@.take(i as int), target_pane_id, focused_rows as int, viewport.rows as int),
        decreases n - i,
    {
        if column.pane_geometries[i].pane_id == target_pane_id {
            rows.push(Dimension::Percent { inner: focused_rows, full: viewport.rows });
        } else {
            rows.push(Dimension::fixed(ACME_COLLAPSED_PANE_ROWS));
        }
        i += 1;
        assert(rows@ =~= maximized_rows(column.pane_geometries@.take(i as int), target_pane_id, focused_rows as int, viewport.rows as int));
    }
    assert(column.pane_geometries@.take(n as int) =~= column.pane_geometries@);
    proof {
        assert(models[ci as int] == column@);
        assert(column_fits(models[ci as int], viewport));
        assert(ids_of(models[ci as int].panes).no_duplicates());
        lemma_count_one_sum(column.pane_geometries@, target_pane_id, focused_rows as int, viewport.rows as int, n as int);
        assert(cells_of(rows@).take(n as int) =~= cells_of(rows@));
    }
    let mut panes = copy_panes(&column.pane_geometries);
    restack(&mut panes, &rows, viewport.y);
    Ok(plan_from(&panes))
}

// ---------------------------------------------------------------------------------------------
// Restoring
// ---------------------------------------------------------------------------------------------

/// The heights recorded in a snapshot.
pub open spec fn snapshot_rows(snapshot: AcmePaneRowsSnapshot) -> Seq<Dimension> {
    snapshot.pane_rows@.map_values(|e: (PaneId, Dimension)| e.1)
}

/// The plan that gives a column back the heights of a snapshot; nothing when the column holds
/// other panes now or the heights no longer fill the viewport.
pub open spec fn restore_plan(columns: Seq<ColumnModel>, snapshot: AcmePaneRowsSnapshot, viewport: Viewport) -> Result<Seq<(PaneId, PaneGeom)>, AcmeError> {
    match column_with_pane(columns, snapshot.target_pane_id) {
        None => Err(AcmeError::FocusedPaneNotInAcmeColumn),
        Some(ci) => {
            let panes = columns[ci].panes;
            if ids_of(panes) != snapshot.ids() {
                Ok(Seq::empty())
            } else if sum(cells_of(snapshot_rows(snapshot))) != viewport.rows {
                Ok(Seq::empty())
            } else {
                Ok(plan_of(restacked(panes, snapshot_rows(snapshot), viewport.y as int)))
            }
        },
    }
}

/// Whether the heights add up to `total`, without overflow.
fn rows_add_up_to(rows: &Vec<Dimension>, total: usize) -> (r: bool)
    ensures
        r == (sum(cells_of(rows@)) == total),
{
    let mut acc: usize = 0;
    let mut i: usize = 0;
    proof {
        lemma_sum_nonneg(cells_of(rows@));
    }
    while i < rows.len()
        invariant
            i <= rows@.len(),
            acc == sum(cells_of(rows@).take(i as int)),
            acc <= total,
        decreases rows@.len() - i,
    {
        proof {
            lemma_cells_take(rows@, i as int);
        }
        let r = rows[i].as_usize();
        if r > total - acc {
            proof {
                lemma_sum_nonneg(cells_of(rows@));
                assert(sum(cells_of(rows@).take(i + 1)) <= sum(cells_of(rows@)));
            }
            return false;
        }
        acc = acc + r;
        i += 1;
    }
    assert(cells_of(rows@).take(i as int) =~= cells_of(rows@));
    acc == total
}

pub fn acme_geometries_after_restoring_pane_rows(
    columns: &[AcmeColumn],
    snapshot: &AcmePaneRowsSnapshot,
    viewport: Viewport,
) -> (r: Result<AcmePlan, AcmeError>)
    requires
        layout_fits(columns@.map_values(|c: AcmeColumn| c@), viewport),
    ensures
        match r {
            Ok(plan) => restore_plan(columns@.map_values(|c: AcmeColumn| c@), *snapshot, viewport) == Ok::<Seq<(PaneId, PaneGeom)>, AcmeError>(plan@),
            Err(e) => restore_plan(columns@.map_values(|c: AcmeColumn| c@), *snapshot, viewport) == Err::<Seq<(PaneId, PaneGeom)>, AcmeError>(e),
        },
{
    let ghost models = columns@.map_values(|c: AcmeColumn| c@);
    let ci = match find_column_with_pane(columns, snapshot.target_pane_id) {
        Some(ci) => ci,
        None => return Err(AcmeError::FocusedPaneNotInAcmeColumn),
    };
    proof {
        lemma_column_with_pane_found(models, snapshot.target_pane_id, 0);
    }
    let column = &columns[ci];
    if !snapshot.matches_column(column) {
        return Ok(Vec::new());
    }
    let mut rows: Vec<Dimension> = Vec::new();
    let mut i: usize = 0;
    while i < snapshot.pane_rows.len()
        invariant
            i <= snapshot.pane_rows@.len(),
            rows@ == snapshot_rows(*snapshot).take(i as int),
        decreases snapshot.pane_rows@.len() - i,
    {
        rows.push(snapshot.pane_rows[i].1);
        i += 1;
        assert(rows@ =~= snapshot_rows(*snapshot).take(i as int));
    }
    assert(rows@ =~= snapshot_rows(*snapshot));
    if !rows_add_up_to(&rows, viewport.rows) {
        return Ok(Vec::new());
    }
    proof {
        assert(snapshot.ids().len() == ids_of(column.pane_geometries@).len());
    }
    let mut panes = copy_panes(&column.pane_geometries);
    restack(&mut panes, &rows, viewport.y);
    Ok(plan_from(&panes))
}

// ---------------------------------------------------------------------------------------------
// Minimizing
// ---------------------------------------------------------------------------------------------

/// The heights of a column whose pane at `t` is minimized: it keeps its title line and the
/// others share `remaining` rows equally, in order.
pub open spec fn minimized_rows(panes: Seq<AcmePaneGeometry>, t: int, remaining: int, viewport_rows: int) -> Seq<Dimension> {
    let shares = equalized(remaining, panes.len() - 1);
    Seq::new(
        panes.len(),
        |i: int|
            if i == t {
                rows_dimension(ACME_COLLAPSED_PANE_ROWS, viewport_rows as usize)
            } else {
                rows_dimension(shares[if i < t { i } else { i - 1 }] as usize, viewport_rows as usize)
            },
    )
}

/// The plan that minimizes a pane to its title line, and the pane that takes the focus.
pub open spec fn minimize_plan(columns: Seq<ColumnModel>, target: PaneId, viewport: Viewport) -> Result<(Seq<(PaneId, PaneGeom)>, Option<PaneId>), AcmeError> {
    match column_with_pane(columns, target) {
        None => Err(AcmeError::FocusedPaneNotInAcmeColumn),
        Some(ci) => {
            let panes = columns[ci].panes;
            let remaining = if viewport.rows >= ACME_COLLAPSED_PANE_ROWS {
                viewport.rows - ACME_COLLAPSED_PANE_ROWS
            } else {
                0
            };
            if panes.len() == 1 {
                Ok((Seq::empty(), None))
            } else if remaining < (panes.len() - 1) * ACME_COLLAPSED_PANE_ROWS {
                Err(AcmeError::NotEnoughRoomToMinimize)
            } else {
                let t = index_of(ids_of(panes), target)->0;
                Ok((
                    plan_of(restacked(panes, minimized_rows(panes, t, remaining, viewport.rows as int), viewport.y as int)),
                    neighbor_focus_target(columns[ci], target),
                ))
            }
        },
    }
}

proof fn lemma_minimized_sum(panes: Seq<AcmePaneGeometry>, t: int, remaining: int, vrows: int, k: int)
    requires
        0 <= t < panes.len(),
        panes.len() >= 2,
        panes.len() - 1 <= remaining,
        0 <= remaining < vrows <= usize::MAX,
        0 <= k <= panes.len(),
    ensures
        sum(cells_of(minimized_rows(panes, t, remaining, vrows)).take(k)) == if k <= t {
            sum(equalized(remaining, panes.len() - 1).take(k))
        } else {
            1 + sum(equalized(remaining, panes.len() - 1).take(k - 1))
        },
    decreases k,
{
    let rows = minimized_rows(panes, t, remaining, vrows);
    let shares = equalized(remaining, panes.len() - 1);
    lemma_equalized_sum(remaining, panes.len() - 1);
    if k == 0 {
        assert(cells_of(rows).take(0) =~= Seq::<int>::empty());
        assert(shares.take(0) =~= Seq::<int>::empty());
    } else {
        lemma_minimized_sum(panes, t, remaining, vrows, k - 1);
        lemma_cells_take(rows, k - 1);
        let c = panes.len() - 1;
        let q = remaining / c;
        assert(q <= remaining) by (nonlinear_arith)
            requires
                c >= 1,
                0 <= remaining,
                q == remaining / c,
        ;
        assert(0 <= q) by (nonlinear_arith)
            requires
                c >= 1,
                0 <= remaining,
                q == remaining / c,
        ;
        if k - 1 < t {
            lemma_sum_take_step(shares, k - 1);
            assert(0 <= shares[k - 1] <= q + 1);
            assert(rows[k - 1].cells() == shares[k - 1]);
        } else if k - 1 > t {
            lemma_sum_take_step(shares, k - 2);
            assert(0 <= shares[k - 2] <= q + 1);
            assert(rows[k - 1].cells() == shares[k - 2]);
        } else {
            assert(rows[k - 1].cells() == 1);
        }
    }
}

pub fn acme_geometries_after_minimizing_pane(
    columns: &[AcmeColumn],
    target_pane_id: PaneId,
    viewport: Viewport,
) -> (r: Result<(AcmePlan, Option<PaneId>), AcmeError>)
    requires
        layout_fits(columns@.map_values(|c: AcmeColumn| c@), viewport),
    ensures
        match r {
            Ok((plan, focus)) => minimize_plan(columns@.map_values(|c: AcmeColumn| c@), target_pane_id, viewport) == Ok::<(Seq<(PaneId, PaneGeom)>, Option<PaneId>), AcmeError>((plan@, focus)),
            Err(e) => minimize_plan(columns@.map_values(|c: AcmeColumn| c@), target_pane_id, viewport) == Err::<(Seq<(PaneId, PaneGeom)>, Option<PaneId>), AcmeError>(e),
        },
{
    let ghost models = columns@.map_values(|c: AcmeColumn| c@);
    let ci = match find_column_with_pane(columns, target_pane_id) {
        Some(ci) => ci,
        None => return Err(AcmeError::FocusedPaneNotInAcmeColumn),
    };
    proof {
        lemma_column_with_pane_found(models, target_pane_id, 0);
        assert(models[ci as int] == columns[ci as int]@);
    }
    let column = &columns[ci];
    let n = column.pane_geometries.len();
    if n == 1 {
        return Ok((Vec::new(), None));
    }
    let remaining_rows = viewport.rows.saturating_sub(ACME_COLLAPSED_PANE_ROWS);
    let expanded_pane_count = n - 1;
    if remaining_rows < expanded_pane_count * ACME_COLLAPSED_PANE_ROWS {
        return Err(AcmeError::NotEnoughRoomToMinimize);
    }
    let shares = equalized_lengths(remaining_rows, expanded_pane_count);
    let ghost ids = ids_of(column.pane_geometries@);
    proof {
        lemma_index_of(ids, target_pane_id, 0);
    }
    let ghost t = index_of(ids, target_pane_id)->0;
    let mut rows: Vec<Dimension> = Vec::new();
    let mut next_share: usize = 0;
    let mut i: usize = 0;
    while i < n
        invariant
            n == column.pane_geometries@.len(),
            n >= 2,
            ids == ids_of(column.pane_geometries@),
            ids.no_duplicates(),
            0 <= t < n,
            ids[t] == target_pane_id,
            i <= n,
            next_share == if i <= t { i as int } else { i - 1 },
            shares@.len() == expanded_pane_count,
            expanded_pane_count == n - 1,
            forall|k: int| 0 <= k < expanded_pane_count ==> shares@[k] as int == #[trigger] equalized(remaining_rows as int, expanded_pane_count as int)[k],
            rows@ == minimized_rows(column.pane_geometries@, t, remaining_rows as int, viewport.rows as int).take(i as int),
        decreases n - i,
    {
        let ghost before = rows@;
        if column.pane_geometries[i].pane_id == target_pane_id {
            proof {
                if i as int != t {
                    assert(ids[i as int] == ids[t]);
                }
            }
            rows.push(acme_rows_dimension(ACME_COLLAPSED_PANE_ROWS, viewport.rows));
        } else {
            let share = shares[next_share];
            rows.push(acme_rows_dimension(share, viewport.rows));
            next_share += 1;
        }
        i += 1;
        assert(rows@ =~= minimized_rows(column.pane_geometries@, t, remaining_rows as int, viewport.rows as int).take(i as int));
    }
    let ghost mrows = minimized_rows(column.pane_geometries@, t, remaining_rows as int, viewport.rows as int);
    assert(rows@ =~= mrows);
    proof {
        lemma_minimized_sum(column.pane_geometries@, t, remaining_rows as int, viewport.rows as int, n as int);
        lemma_equalized_sum(remaining_rows as int, expanded_pane_count as int);
        assert(equalized(remaining_rows as int, expanded_pane_count as int).take(n - 1) =~= equalized(remaining_rows as int, expanded_pane_count as int));
        assert(cells_of(mrows).take(n as int) =~= cells_of(mrows));
        assert(sum(cells_of(rows@)) == viewport.rows);
    }
    let mut panes = copy_panes(&column.pane_geometries);
    let end = restack(&mut panes, &rows, viewport.y);
    if end != viewport.y + viewport.rows {
        return Err(AcmeError::ColumnDoesNotFillHeight);
    }
    let focus_target = acme_neighbor_focus_target(column, target_pane_id);
    Ok((plan_from(&panes), focus_target))
}

} // verus!
