use vstd::prelude::*;
use crate::geom::{Dimension, PaneGeom, PaneId, Viewport};
use crate::acme::{
    AcmeColumn, AcmePaneGeometry, ColumnModel, ACME_COLLAPSED_PANE_ROWS, equalized_rows,
    equalized_acme_row_heights, heights_of, as_ints, sum, lemma_sum_nonneg, lemma_sum_take_step,
    acme_rows_dimension,
};
use crate::acme::ids_of;
use crate::acme_plan::{AcmeError, AcmePlan, cells_of, restacked, restack, rows_of, copy_panes, layout_fits, column_fits, widths_of};
use crate::acme_lookup::{
    column_with_pane, column_at, pane_at_line, insert_index_at_line, index_of, lemma_index_of,
    lemma_column_with_pane_found, lemma_column_at_found, lemma_pane_at_line_found,
    find_column_with_pane, acme_column_index_at_position, acme_pane_index_at_line,
    acme_insert_index_at_line,
};
use crate::acme_resize::{dims_of, lemma_cells_of_dims, lemma_sum_update};

verus! {

/// Whether the heights add up to `total`, without overflow.
pub(crate) fn heights_add_up_to(h: &Vec<usize>, total: usize) -> (r: bool)
    ensures
        r == (sum(as_ints(h@)) == total),
{
    let ghost s = as_ints(h@);
    let mut acc: usize = 0;
    let mut i: usize = 0;
    proof {
        lemma_sum_nonneg(s);
    }
    while i < h.len()
        invariant
            s == as_ints(h@),
            i <= h@.len(),
            acc == sum(s.take(i as int)),
            acc <= total,
            forall|k: int| 0 <= k <= s.len() ==> sum(#[trigger] s.take(k)) <= sum(s),
        decreases h@.len() - i,
    {
        proof {
            lemma_sum_take_step(s, i as int);
        }
        if h[i] > total - acc {
            return false;
        }
        acc = acc + h[i];
        i += 1;
    }
    assert(s.take(i as int) =~= s);
    acc == total
}

/// Lays out panes from the viewport's top with the given heights, as long as the heights fill
/// the viewport's height exactly.
fn restack_filling(panes: &mut Vec<AcmePaneGeometry>, h: &Vec<usize>, viewport: Viewport) -> (r: Result<(), AcmeError>)
    requires
        old(panes)@.len() == h@.len(),
        viewport.y + viewport.rows <= usize::MAX,
    ensures
        sum(as_ints(h@)) == viewport.rows ==> r is Ok && final(panes)@ == restacked(
            old(panes)@,
            dims_of(as_ints(h@), viewport.rows),
            viewport.y as int,
        ),
        sum(as_ints(h@)) != viewport.rows ==> r == Err::<(), AcmeError>(AcmeError::ColumnDoesNotFillHeight),
{
    if !heights_add_up_to(h, viewport.rows) {
        return Err(AcmeError::ColumnDoesNotFillHeight);
    }
    let mut dims: Vec<Dimension> = Vec::new();
    let mut i: usize = 0;
    while i < h.len()
        invariant
            i <= h@.len(),
            dims@ == dims_of(as_ints(h@), viewport.rows).take(i as int),
        decreases h@.len() - i,
    {
        dims.push(acme_rows_dimension(h[i], viewport.rows));
        i += 1;
        assert(dims@ =~= dims_of(as_ints(h@), viewport.rows).take(i as int));
    }
    assert(dims@ =~= dims_of(as_ints(h@), viewport.rows));
    proof {
        lemma_cells_of_dims(as_ints(h@), viewport.rows);
    }
    restack(panes, &dims, viewport.y);
    Ok(())
}

/// A column with other panes.
pub open spec fn with_panes(c: ColumnModel, panes: Seq<AcmePaneGeometry>) -> ColumnModel {
    ColumnModel { x: c.x, cols: c.cols, panes }
}

/// The column with equal shares of the viewport's height for its open panes; an error when
/// those do not fill the height.
pub open spec fn equalize_column(c: ColumnModel, viewport: Viewport) -> Result<ColumnModel, AcmeError> {
    let h = equalized_rows(heights_of(c.panes), viewport.rows as int);
    if sum(h) == viewport.rows {
        Ok(with_panes(c, restacked(c.panes, dims_of(h, viewport.rows), viewport.y as int)))
    } else {
        Err(AcmeError::ColumnDoesNotFillHeight)
    }
}

/// The column laid out from the viewport's top with the heights its panes have; an error when
/// those do not fill the height.
pub open spec fn stack_column(c: ColumnModel, viewport: Viewport) -> Result<ColumnModel, AcmeError> {
    if sum(heights_of(c.panes)) == viewport.rows {
        Ok(with_panes(c, restacked(c.panes, rows_of(c.panes), viewport.y as int)))
    } else {
        Err(AcmeError::ColumnDoesNotFillHeight)
    }
}

fn equalize_acme_column_rows(column: &mut AcmeColumn, viewport: Viewport) -> (r: Result<(), AcmeError>)
    requires
        viewport.y + viewport.rows <= usize::MAX,
    ensures
        match equalize_column(old(column)@, viewport) {
            Ok(c) => r is Ok && final(column)@ == c,
            Err(e) => r == Err::<(), AcmeError>(e),
        },
{
    let existing_rows = column.row_heights();
    assert(as_ints(existing_rows@) =~= heights_of(column.pane_geometries@));
    let rows = equalized_acme_row_heights(existing_rows.as_slice(), viewport.rows);
    let ghost h = equalized_rows(heights_of(column.pane_geometries@), viewport.rows as int);
    assert(as_ints(rows@) =~= h);
    restack_filling(&mut column.pane_geometries, &rows, viewport)
}

fn stack_acme_column_rows(column: &mut AcmeColumn, viewport: Viewport) -> (r: Result<(), AcmeError>)
    requires
        viewport.y + viewport.rows <= usize::MAX,
    ensures
        match stack_column(old(column)@, viewport) {
            Ok(c) => r is Ok && final(column)@ == c,
            Err(e) => r == Err::<(), AcmeError>(e),
        },
{
    let h = column.row_heights();
    assert(as_ints(h@) =~= heights_of(column.pane_geometries@));
    if !heights_add_up_to(&h, viewport.rows) {
        return Err(AcmeError::ColumnDoesNotFillHeight);
    }
    let mut rows: Vec<Dimension> = Vec::new();
    let mut i: usize = 0;
    while i < column.pane_geometries.len()
        invariant
            i <= column.pane_geometries@.len(),
            rows@ == rows_of(column.pane_geometries@).take(i as int),
        decreases column.pane_geometries@.len() - i,
    {
        rows.push(column.pane_geometries[i].geom.rows);
        i += 1;
        assert(rows@ =~= rows_of(column.pane_geometries@).take(i as int));
    }
    assert(rows@ =~= rows_of(column.pane_geometries@));
    assert(cells_of(rows@) =~= heights_of(column.pane_geometries@));
    restack(&mut column.pane_geometries, &rows, viewport.y);
    Ok(())
}

// ---------------------------------------------------------------------------------------------
// Giving away the rows of a removed pane
// ---------------------------------------------------------------------------------------------

/// The last pane at or above `i` that shows more than its title line.
pub open spec fn last_open_at_or_above(h: Seq<int>, i: int) -> Option<int>
    decreases i + 1,
{
    if i < 0 || i >= h.len() {
        None
    } else if h[i] > ACME_COLLAPSED_PANE_ROWS {
        Some(i)
    } else {
        last_open_at_or_above(h, i - 1)
    }
}

/// The first pane at or below `i` that shows more than its title line.
pub open spec fn first_open_from(h: Seq<int>, i: int) -> Option<int>
    decreases h.len() - i,
{
    if i < 0 || i >= h.len() {
        None
    } else if h[i] > ACME_COLLAPSED_PANE_ROWS {
        Some(i)
    } else {
        first_open_from(h, i + 1)
    }
}

/// The pane that takes the rows of the pane removed at `removed`: the nearest open pane above
/// it, else the nearest open pane below; when every pane is collapsed, the pane that moved into
/// its place, else the one above.
pub open spec fn receive_index(h: Seq<int>, removed: int) -> Option<int> {
    if h.len() == 0 {
        None
    } else if first_open_from(h, 0) is Some {
        if removed >= 1 && last_open_at_or_above(h, removed - 1) is Some {
            last_open_at_or_above(h, removed - 1)
        } else {
            first_open_from(h, removed)
        }
    } else if removed < h.len() {
        Some(removed)
    } else if removed >= 1 {
        Some(removed - 1)
    } else {
        None
    }
}

pub proof fn lemma_last_open(h: Seq<int>, i: int)
    requires
        i < h.len(),
    ensures
        last_open_at_or_above(h, i) is Some ==> 0 <= last_open_at_or_above(h, i)->0 <= i,
    decreases i + 1,
{
    if i >= 0 && !(h[i] > ACME_COLLAPSED_PANE_ROWS) {
        lemma_last_open(h, i - 1);
    }
}

pub proof fn lemma_first_open(h: Seq<int>, i: int)
    requires
        0 <= i,
    ensures
        first_open_from(h, i) is Some ==> i <= first_open_from(h, i)->0 < h.len(),
    decreases h.len() - i,
{
    if i < h.len() && !(h[i] > ACME_COLLAPSED_PANE_ROWS) {
        lemma_first_open(h, i + 1);
    }
}

fn last_open_at_or_above_exec(h: &Vec<usize>, i: usize) -> (r: Option<usize>)
    requires
        i < h@.len(),
    ensures
        match r {
            Some(k) => last_open_at_or_above(as_ints(h@), i as int) == Some(k as int),
            None => last_open_at_or_above(as_ints(h@), i as int) is None,
        },
{
    assert(h@.len() == h.len());
    let mut j: usize = i + 1;
    while j > 0
        invariant
            j <= i + 1,
            i < h@.len(),
            last_open_at_or_above(as_ints(h@), i as int) == last_open_at_or_above(as_ints(h@), j - 1),
        decreases j,
    {
        if h[j - 1] > ACME_COLLAPSED_PANE_ROWS {
            return Some(j - 1);
        }
        j -= 1;
    }
    None
}

fn first_open_from_exec(h: &Vec<usize>, i: usize) -> (r: Option<usize>)
    ensures
        match r {
            Some(k) => first_open_from(as_ints(h@), i as int) == Some(k as int),
            None => first_open_from(as_ints(h@), i as int) is None,
        },
{
    let mut j: usize = i;
    while j < h.len()
        invariant
            i <= j,
            first_open_from(as_ints(h@), i as int) == first_open_from(as_ints(h@), j as int),
        decreases h@.len() - j,
    {
        if h[j] > ACME_COLLAPSED_PANE_ROWS {
            return Some(j);
        }
        j += 1;
    }
    None
}

fn acme_pane_index_to_receive_removed_rows(row_heights: &Vec<usize>, removed_pane_index: usize) -> (r: Option<usize>)
    requires
        removed_pane_index <= row_heights@.len(),
    ensures
        match r {
            Some(k) => receive_index(as_ints(row_heights@), removed_pane_index as int) == Some(k as int),
            None => receive_index(as_ints(row_heights@), removed_pane_index as int) is None,
        },
{
    if row_heights.len() == 0 {
        return None;
    }
    if first_open_from_exec(row_heights, 0).is_some() {
        if removed_pane_index >= 1 {
            if let Some(index) = last_open_at_or_above_exec(row_heights, removed_pane_index - 1) {
                return Some(index);
            }
        }
        return first_open_from_exec(row_heights, removed_pane_index);
    }
    if removed_pane_index < row_heights.len() {
        Some(removed_pane_index)
    } else {
        Some(removed_pane_index - 1)
    }
}

pub proof fn lemma_sum_remove(s: Seq<int>, i: int)
    requires
        0 <= i < s.len(),
    ensures
        sum(s.remove(i)) == sum(s) - s[i],
    decreases s.len(),
{
    if i < s.len() - 1 {
        assert(s.remove(i).drop_last() =~= s.drop_last().remove(i));
        lemma_sum_remove(s.drop_last(), i);
    } else {
        assert(s.remove(i) =~= s.drop_last());
    }
}

pub proof fn lemma_elem_le_sum(s: Seq<int>, i: int)
    requires
        0 <= i < s.len(),
        forall|k: int| 0 <= k < s.len() ==> s[k] >= 0,
    ensures
        s[i] <= sum(s),
{
    lemma_sum_update(s, i, 0);
    lemma_sum_nonneg(s.update(i, 0));
}

/// The heights a column's panes take after the pane at `pi` leaves: its rows go to the pane
/// that `receive_index` names.
pub open spec fn heights_after_removing(panes: Seq<AcmePaneGeometry>, pi: int) -> Seq<int> {
    let h = heights_of(panes.remove(pi));
    match receive_index(h, pi) {
        Some(r) => h.update(r, h[r] + panes[pi].geom.rows.cells()),
        None => h,
    }
}

/// The column without its pane at `pi`, laid out again; an error when the heights do not fill
/// the viewport's height.
pub open spec fn remove_from_column(c: ColumnModel, pi: int, viewport: Viewport) -> Result<ColumnModel, AcmeError> {
    let h = heights_after_removing(c.panes, pi);
    if sum(h) == viewport.rows {
        Ok(with_panes(c, restacked(c.panes.remove(pi), dims_of(h, viewport.rows), viewport.y as int)))
    } else {
        Err(AcmeError::ColumnDoesNotFillHeight)
    }
}

fn resize_acme_column_after_removing_pane(column: &mut AcmeColumn, pane_index: usize, viewport: Viewport) -> (r: Result<(), AcmeError>)
    requires
        pane_index < old(column).pane_geometries@.len(),
        viewport.y + viewport.rows <= usize::MAX,
        sum(heights_of(old(column).pane_geometries@)) <= usize::MAX,
    ensures
        match remove_from_column(old(column)@, pane_index as int, viewport) {
            Ok(c) => r is Ok && final(column)@ == c,
            Err(e) => r == Err::<(), AcmeError>(e),
        },
{
    let ghost panes0 = column.pane_geometries@;
    let removed_pane = column.pane_geometries.remove(pane_index);
    let mut row_heights = column.row_heights();
    let ghost h = heights_of(panes0.remove(pane_index as int));
    assert(as_ints(row_heights@) =~= h);
    proof {
        assert(heights_of(panes0).remove(pane_index as int) =~= h);
        lemma_sum_remove(heights_of(panes0), pane_index as int);
    }
    if let Some(recipient_index) = acme_pane_index_to_receive_removed_rows(&row_heights, pane_index) {
        proof {
            let r = recipient_index as int;
            let hh = receive_index(h, pane_index as int);
            lemma_last_open(h, pane_index - 1);
            lemma_first_open(h, 0);
            lemma_first_open(h, pane_index as int);
            assert(0 <= r < h.len());
            lemma_elem_le_sum(h, r);
        }
        let rows = row_heights[recipient_index] + removed_pane.geom.rows.as_usize();
        row_heights.set(recipient_index, rows);
        assert(as_ints(row_heights@) =~= heights_after_removing(panes0, pane_index as int));
    } else {
        assert(as_ints(row_heights@) =~= heights_after_removing(panes0, pane_index as int));
    }
    restack_filling(&mut column.pane_geometries, &row_heights, viewport)
}

// ---------------------------------------------------------------------------------------------
// Giving away the width of a removed column
// ---------------------------------------------------------------------------------------------

/// The columns after the one at `removed` left with `width` columns of the display: the column
/// that took its place, else the last one, takes the width, and the columns are laid out from
/// the viewport's left edge; an error when no column is left or the widths do not fill the
/// viewport's width.
pub open spec fn expand_columns(columns: Seq<ColumnModel>, removed: int, width: int, viewport: Viewport) -> Result<Seq<ColumnModel>, AcmeError> {
    if columns.len() == 0 {
        Err(AcmeError::NoColumnForRemovedWidth)
    } else {
        let r = if removed < columns.len() { removed } else { columns.len() - 1 };
        let widened = columns.update(r, ColumnModel { x: columns[r].x, cols: (columns[r].cols + width) as usize, panes: columns[r].panes });
        let widths = widths_of(widened);
        if sum(widths) != viewport.cols {
            Err(AcmeError::ColumnsDoNotFillWidth)
        } else {
            Ok(Seq::new(widened.len(), |i: int| ColumnModel {
                x: (viewport.x + sum(widths.take(i))) as usize,
                cols: widened[i].cols,
                panes: widened[i].panes,
            }))
        }
    }
}

/// The columns as values.
pub open spec fn models(columns: Seq<AcmeColumn>) -> Seq<ColumnModel> {
    columns.map_values(|c: AcmeColumn| c@)
}

fn expand_acme_columns_after_removing_column(
    columns: &mut Vec<AcmeColumn>,
    removed_column_index: usize,
    removed_column_width: usize,
    viewport: Viewport,
) -> (r: Result<(), AcmeError>)
    requires
        sum(widths_of(models(old(columns)@))) + removed_column_width <= usize::MAX,
        viewport.x + viewport.cols <= usize::MAX,
    ensures
        match expand_columns(models(old(columns)@), removed_column_index as int, removed_column_width as int, viewport) {
            Ok(cs) => r is Ok && models(final(columns)@) == cs,
            Err(e) => r == Err::<(), AcmeError>(e),
        },
{
    let ghost m0 = models(columns@);
    let n = columns.len();
    if n == 0 {
        return Err(AcmeError::NoColumnForRemovedWidth);
    }
    let recipient_index = if removed_column_index < n { removed_column_index } else { n - 1 };
    let ghost widened = m0.update(recipient_index as int, ColumnModel {
        x: m0[recipient_index as int].x,
        cols: (m0[recipient_index as int].cols + removed_column_width) as usize,
        panes: m0[recipient_index as int].panes,
    });
    proof {
        lemma_sum_nonneg(widths_of(m0));
        lemma_elem_le_sum(widths_of(m0), recipient_index as int);
    }
    let mut widths: Vec<usize> = Vec::new();
    let mut i: usize = 0;
    while i < n
        invariant
            n == columns@.len(),
            m0 == models(columns@),
            recipient_index < n,
            widened == m0.update(recipient_index as int, ColumnModel {
                x: m0[recipient_index as int].x,
                cols: (m0[recipient_index as int].cols + removed_column_width) as usize,
                panes: m0[recipient_index as int].panes,
            }),
            m0[recipient_index as int].cols + removed_column_width <= usize::MAX,
            i <= n,
            as_ints(widths@) == widths_of(widened).take(i as int),
        decreases n - i,
    {
        assert(m0[i as int].cols == columns@[i as int].cols);
        let w = if i == recipient_index { columns[i].cols + removed_column_width } else { columns[i].cols };
        assert(widened[i as int].cols == w);
        assert(widths_of(widened)[i as int] == w as int);
        let ghost prev = as_ints(widths@);
        widths.push(w);
        assert(as_ints(widths@) =~= prev.push(w as int));
        assert(widths_of(widened).take(i + 1) =~= widths_of(widened).take(i as int).push(w as int));
        i += 1;
    }
    assert(as_ints(widths@) =~= widths_of(widened));
    if !heights_add_up_to(&widths, viewport.cols) {
        return Err(AcmeError::ColumnsDoNotFillWidth);
    }
    let ghost ws = widths_of(widened);
    proof {
        lemma_sum_nonneg(ws);
    }
    assert forall|j: int| 0 <= j < n implies (#[trigger] columns@[j]).pane_geometries@ == widened[j].panes by {
        assert(m0[j] == columns@[j]@);
    }
    let mut rebuilt: Vec<AcmeColumn> = Vec::new();
    let mut next_x = viewport.x;
    let mut k: usize = 0;
    while k < n
        invariant
            n == widths@.len(),
            columns@.len() == n - k,
            forall|j: int| 0 <= j < n - k ==> (#[trigger] columns@[j]).pane_geometries@ == widened[j + k].panes,
            widened.len() == n,
            ws == widths_of(widened),
            as_ints(widths@) == ws,
            sum(ws) == viewport.cols,
            viewport.x + viewport.cols <= usize::MAX,
            forall|j: int| 0 <= j <= n ==> sum(#[trigger] ws.take(j)) <= sum(ws),
            k <= n,
            next_x == viewport.x + sum(ws.take(k as int)),
            rebuilt@.len() == k,
            forall|j: int| 0 <= j < k ==> (#[trigger] rebuilt@[j])@ == (ColumnModel {
                x: (viewport.x + sum(ws.take(j))) as usize,
                cols: widened[j].cols,
                panes: widened[j].panes,
            }),
        decreases n - k,
    {
        let c = columns.remove(0);
        proof {
            lemma_sum_take_step(ws, k as int);
            assert(c.pane_geometries@ == widened[k as int].panes);
        }
        let w = widths[k];
        rebuilt.push(AcmeColumn { x: next_x, cols: w, pane_geometries: c.pane_geometries });
        next_x = next_x + w;
        k += 1;
    }
    *columns = rebuilt;
    assert(expand_columns(m0, removed_column_index as int, removed_column_width as int, viewport) == Ok::<Seq<ColumnModel>, AcmeError>(models(columns@))) by {
        assert(models(columns@) =~= Seq::new(widened.len(), |i: int| ColumnModel {
            x: (viewport.x + sum(ws.take(i))) as usize,
            cols: widened[i].cols,
            panes: widened[i].panes,
        }));
    }
    Ok(())
}

// ---------------------------------------------------------------------------------------------
// Plans over all columns
// ---------------------------------------------------------------------------------------------

/// A column's panes as a plan: each takes the column's left edge and its share of the
/// viewport's width.
pub open spec fn column_plan(c: ColumnModel, viewport_cols: usize) -> Seq<(PaneId, PaneGeom)> {
    c.panes.map_values(
        |p: AcmePaneGeometry|
            (p.pane_id, PaneGeom {
                x: c.x,
                y: p.geom.y,
                cols: Dimension::Percent { inner: c.cols, full: viewport_cols },
                rows: p.geom.rows,
                stacked: None,
            }),
    )
}

/// The plan of all the columns, from left to right.
pub open spec fn layout_plan(columns: Seq<ColumnModel>, viewport_cols: usize) -> Seq<(PaneId, PaneGeom)>
    decreases columns.len(),
{
    if columns.len() == 0 {
        Seq::empty()
    } else {
        layout_plan(columns.drop_last(), viewport_cols) + column_plan(columns.last(), viewport_cols)
    }
}

fn planned_geometries_for_columns(columns: &Vec<AcmeColumn>, viewport: Viewport) -> (plan: AcmePlan)
    ensures
        plan@ == layout_plan(models(columns@), viewport.cols),
{
    let ghost m = models(columns@);
    let mut plan: AcmePlan = Vec::new();
    let mut i: usize = 0;
    while i < columns.len()
        invariant
            m == models(columns@),
            i <= columns@.len(),
            plan@ == layout_plan(m.take(i as int), viewport.cols),
        decreases columns@.len() - i,
    {
        let column = &columns[i];
        let ghost base = plan@;
        let mut j: usize = 0;
        while j < column.pane_geometries.len()
            invariant
                i < columns@.len(),
                column == &columns@[i as int],
                m[i as int] == column@,
                j <= column.pane_geometries@.len(),
                plan@ == base + column_plan(column@, viewport.cols).take(j as int),
            decreases column.pane_geometries@.len() - j,
        {
            let p = column.pane_geometries[j];
            let geom = PaneGeom {
                x: column.x,
                y: p.geom.y,
                cols: Dimension::Percent { inner: column.cols, full: viewport.cols },
                rows: p.geom.rows,
                stacked: None,
            };
            plan.push((p.pane_id, geom));
            j += 1;
            assert(plan@ =~= base + column_plan(column@, viewport.cols).take(j as int));
        }
        assert(column_plan(column@, viewport.cols).take(j as int) =~= column_plan(column@, viewport.cols));
        assert(m.take(i + 1).drop_last() =~= m.take(i as int));
        i += 1;
    }
    assert(m.take(i as int) =~= m);
    plan
}

/// A copy of a column.
fn copy_column(column: &AcmeColumn) -> (c: AcmeColumn)
    ensures
        c@ == column@,
{
    AcmeColumn { x: column.x, cols: column.cols, pane_geometries: copy_panes(&column.pane_geometries) }
}

/// A copy of the columns.
fn copy_columns(columns: &[AcmeColumn]) -> (v: Vec<AcmeColumn>)
    ensures
        models(v@) == models(columns@),
{
    let mut v: Vec<AcmeColumn> = Vec::new();
    let mut i: usize = 0;
    while i < columns.len()
        invariant
            i <= columns@.len(),
            models(v@) == models(columns@.take(i as int)),
        decreases columns@.len() - i,
    {
        let c = copy_column(&columns[i]);
        let ghost prev = models(v@);
        v.push(c);
        assert(models(v@) =~= prev.push(c@));
        assert(models(columns@.take(i + 1)) =~= models(columns@.take(i as int)).push(columns@[i as int]@));
        i += 1;
    }
    assert(columns@.take(i as int) =~= columns@);
    v
}

// ---------------------------------------------------------------------------------------------
// Removing a pane
// ---------------------------------------------------------------------------------------------

/// The plan after a pane leaves the Acme layout: its column closes when it was alone there and
/// gives its width away, else the column's other panes share its rows.
pub open spec fn removing_plan(columns: Seq<ColumnModel>, id: PaneId, viewport: Viewport) -> Result<Seq<(PaneId, PaneGeom)>, AcmeError> {
    match column_with_pane(columns, id) {
        None => Err(AcmeError::PaneNotInAcmeColumn),
        Some(ci) => {
            let c = columns[ci];
            let pi = index_of(ids_of(c.panes), id)->0;
            if c.panes.len() == 1 {
                let rest = columns.remove(ci);
                if rest.len() == 0 {
                    Ok(Seq::empty())
                } else {
                    match expand_columns(rest, ci, c.cols as int, viewport) {
                        Ok(cs) => Ok(layout_plan(cs, viewport.cols)),
                        Err(e) => Err(e),
                    }
                }
            } else {
                match remove_from_column(c, pi, viewport) {
                    Ok(c2) => Ok(layout_plan(columns.update(ci, c2), viewport.cols)),
                    Err(e) => Err(e),
                }
            }
        },
    }
}

proof fn lemma_first_index_is_index_of(ids: Seq<PaneId>, id: PaneId, i: int)
    requires
        0 <= i < ids.len(),
        ids[i] == id,
        forall|j: int| 0 <= j < i ==> ids[j] != id,
    ensures
        index_of(ids, id) == Some(i),
{
    lemma_index_of(ids, id, 0);
}

proof fn lemma_widths_remove(m: Seq<ColumnModel>, i: int)
    requires
        0 <= i < m.len(),
    ensures
        sum(widths_of(m.remove(i))) + m[i].cols == sum(widths_of(m)),
{
    assert(widths_of(m.remove(i)) =~= widths_of(m).remove(i));
    lemma_sum_remove(widths_of(m), i);
}

pub fn acme_geometries_after_removing_pane(
    columns: &[AcmeColumn],
    pane_id: PaneId,
    viewport: Viewport,
) -> (r: Result<AcmePlan, AcmeError>)
    requires
        layout_fits(models(columns@), viewport),
    ensures
        match r {
            Ok(plan) => removing_plan(models(columns@), pane_id, viewport) == Ok::<Seq<(PaneId, PaneGeom)>, AcmeError>(plan@),
            Err(e) => removing_plan(models(columns@), pane_id, viewport) == Err::<Seq<(PaneId, PaneGeom)>, AcmeError>(e),
        },
{
    let ghost m = models(columns@);
    let ci = match find_column_with_pane(columns, pane_id) {
        Some(ci) => ci,
        None => return Err(AcmeError::PaneNotInAcmeColumn),
    };
    proof {
        lemma_column_with_pane_found(m, pane_id, 0);
        assert(m[ci as int] == columns@[ci as int]@);
    }
    let pi = match columns[ci].pane_index(pane_id) {
        Some(pi) => pi,
        None => return Err(AcmeError::PaneNotInAcmeColumn),
    };
    proof {
        lemma_first_index_is_index_of(ids_of(m[ci as int].panes), pane_id, pi as int);
    }
    let mut cols = copy_columns(columns);
    if cols[ci].pane_geometries.len() == 1 {
        let removed_column = cols.remove(ci);
        assert(models(cols@) =~= m.remove(ci as int));
        if cols.len() == 0 {
            return Ok(Vec::new());
        }
        proof {
            lemma_widths_remove(m, ci as int);
            lemma_sum_nonneg(widths_of(m.remove(ci as int)));
        }
        match expand_acme_columns_after_removing_column(&mut cols, ci, removed_column.cols, viewport) {
            Err(e) => return Err(e),
            Ok(()) => {},
        }
    } else {
        let mut column = cols.remove(ci);
        proof {
            assert(column_fits(m[ci as int], viewport));
            lemma_sum_nonneg(heights_of(column.pane_geometries@));
        }
        match resize_acme_column_after_removing_pane(&mut column, pi, viewport) {
            Err(e) => return Err(e),
            Ok(()) => {},
        }
        let ghost c2 = column@;
        cols.insert(ci, column);
        assert(models(cols@) =~= m.update(ci as int, c2));
    }
    Ok(planned_geometries_for_columns(&cols, viewport))
}

// ---------------------------------------------------------------------------------------------
// Moving a pane to another column
// ---------------------------------------------------------------------------------------------

/// Whether a display line and column are inside the viewport.
pub open spec fn in_viewport(line: int, column: int, viewport: Viewport) -> bool {
    &&& viewport.y <= line < viewport.y + viewport.rows
    &&& viewport.x <= column < viewport.x + viewport.cols
}

/// The column with a pane inserted at `index`, or last when the index is past its end.
pub open spec fn insert_into(c: ColumnModel, index: int, p: AcmePaneGeometry) -> ColumnModel {
    with_panes(c, c.panes.insert(if index <= c.panes.len() { index } else { c.panes.len() as int }, p))
}

/// The plan after a pane is dragged to display line `line` of another column: it leaves its
/// column, which closes when it empties, goes below the pane at that line (or last), and both
/// columns share their heights equally again. Nothing when the drop is outside the viewport,
/// outside every column, or in the pane's own column.
pub open spec fn move_plan(columns: Seq<ColumnModel>, id: PaneId, line: int, position_column: int, viewport: Viewport, minimum_rows: int) -> Result<Seq<(PaneId, PaneGeom)>, AcmeError> {
    if !in_viewport(line, position_column, viewport) {
        Ok(Seq::empty())
    } else {
        match column_with_pane(columns, id) {
            None => Err(AcmeError::PaneNotInAcmeColumn),
            Some(si) => match column_at(columns, position_column) {
                None => Ok(Seq::empty()),
                Some(ti) => if si == ti {
                    Ok(Seq::empty())
                } else if viewport.rows < (columns[ti].panes.len() + 1) * minimum_rows {
                    Err(AcmeError::NotEnoughRoomToMove)
                } else {
                    let ins = insert_index_at_line(columns[ti], line);
                    let src = columns[si];
                    let pi = index_of(ids_of(src.panes), id)->0;
                    let moving = src.panes[pi];
                    let src2 = with_panes(src, src.panes.remove(pi));
                    if src2.panes.len() == 0 {
                        move_closing_source(columns.remove(si), si, if ti > si { ti - 1 } else { ti }, src.cols as int, ins, moving, viewport)
                    } else {
                        move_between(columns.update(si, src2), si, ti, ins, moving, viewport)
                    }
                },
            },
        }
    }
}

/// The rest of a move whose source column emptied: the other columns take its width, then the
/// pane joins the target column, now at `ti`, which shares its height equally again.
pub open spec fn move_closing_source(rest: Seq<ColumnModel>, si: int, ti: int, width: int, ins: int, moving: AcmePaneGeometry, viewport: Viewport) -> Result<Seq<(PaneId, PaneGeom)>, AcmeError> {
    match expand_columns(rest, si, width, viewport) {
        Err(e) => Err(e),
        Ok(cs) => {
            let cs2 = cs.update(ti, insert_into(cs[ti], ins, moving));
            match equalize_column(cs2[ti], viewport) {
                Err(e) => Err(e),
                Ok(t) => Ok(layout_plan(cs2.update(ti, t), viewport.cols)),
            }
        },
    }
}

/// The rest of a move whose source column kept panes: the pane joins the target column, and
/// both columns share their heights equally again.
pub open spec fn move_between(columns: Seq<ColumnModel>, si: int, ti: int, ins: int, moving: AcmePaneGeometry, viewport: Viewport) -> Result<Seq<(PaneId, PaneGeom)>, AcmeError> {
    let cs2 = columns.update(ti, insert_into(columns[ti], ins, moving));
    match equalize_column(cs2[si], viewport) {
        Err(e) => Err(e),
        Ok(s) => {
            let cs3 = cs2.update(si, s);
            match equalize_column(cs3[ti], viewport) {
                Err(e) => Err(e),
                Ok(t) => Ok(layout_plan(cs3.update(ti, t), viewport.cols)),
            }
        },
    }
}

/// Whether the display line and column are inside the viewport.
fn position_in_viewport(line: isize, position_column: usize, viewport: Viewport) -> (r: bool)
    requires
        viewport.y + viewport.rows <= isize::MAX,
        viewport.x + viewport.cols <= usize::MAX,
    ensures
        r == in_viewport(line as int, position_column as int, viewport),
{
    let top = viewport.y as isize;
    let bottom = (viewport.y + viewport.rows) as isize;
    !(line < top || line >= bottom || position_column < viewport.x
        || position_column >= viewport.x + viewport.cols)
}

/// Inserts a pane at `index`, or last when the index is past the end.
fn insert_pane(column: &mut AcmeColumn, index: usize, pane: AcmePaneGeometry)
    ensures
        final(column)@ == insert_into(old(column)@, index as int, pane),
{
    let len = column.pane_geometries.len();
    let at = if index <= len { index } else { len };
    column.pane_geometries.insert(at, pane);
}

#[verifier::rlimit(50)]
pub fn acme_geometries_after_moving_pane_to_position(
    columns: &[AcmeColumn],
    pane_id: PaneId,
    line: isize,
    position_column: usize,
    viewport: Viewport,
    minimum_pane_rows: usize,
) -> (r: Result<AcmePlan, AcmeError>)
    requires
        layout_fits(models(columns@), viewport),
    ensures
        match r {
            Ok(plan) => move_plan(models(columns@), pane_id, line as int, position_column as int, viewport, minimum_pane_rows as int) == Ok::<Seq<(PaneId, PaneGeom)>, AcmeError>(plan@),
            Err(e) => move_plan(models(columns@), pane_id, line as int, position_column as int, viewport, minimum_pane_rows as int) == Err::<Seq<(PaneId, PaneGeom)>, AcmeError>(e),
        },
{
    let ghost m = models(columns@);
    proof {
        lemma_sum_nonneg(widths_of(m));
    }
    if !position_in_viewport(line, position_column, viewport) {
        return Ok(Vec::new());
    }
    let source_column_index = match find_column_with_pane(columns, pane_id) {
        Some(i) => i,
        None => return Err(AcmeError::PaneNotInAcmeColumn),
    };
    proof {
        lemma_column_with_pane_found(m, pane_id, 0);
        assert(m[source_column_index as int] == columns@[source_column_index as int]@);
    }
    let target_column_index = match acme_column_index_at_position(columns, position_column) {
        Some(i) => i,
        None => return Ok(Vec::new()),
    };
    proof {
        lemma_column_at_found(m, position_column as int, 0);
        assert(m[target_column_index as int] == columns@[target_column_index as int]@);
    }
    if source_column_index == target_column_index {
        return Ok(Vec::new());
    }
    let target_pane_count = columns[target_column_index].pane_geometries.len() as u128 + 1;
    assert(target_pane_count * (minimum_pane_rows as u128) <= u128::MAX) by (nonlinear_arith)
        requires
            target_pane_count <= usize::MAX as u128 + 1,
            minimum_pane_rows <= usize::MAX,
            usize::MAX <= u64::MAX,
    ;
    if (viewport.rows as u128) < target_pane_count * (minimum_pane_rows as u128) {
        return Err(AcmeError::NotEnoughRoomToMove);
    }
    let target_insert_index = acme_insert_index_at_line(&columns[target_column_index], line);
    let source_pane_index = match columns[source_column_index].pane_index(pane_id) {
        Some(i) => i,
        None => return Err(AcmeError::PaneNotInAcmeColumn),
    };
    proof {
        lemma_first_index_is_index_of(ids_of(m[source_column_index as int].panes), pane_id, source_pane_index as int);
    }
    let mut cols = copy_columns(columns);
    let mut source_column = cols.remove(source_column_index);
    let moving_pane = source_column.pane_geometries.remove(source_pane_index);
    if source_column.pane_geometries.len() == 0 {
        assert(models(cols@) =~= m.remove(source_column_index as int));
        let target_index = if target_column_index > source_column_index {
            target_column_index - 1
        } else {
            target_column_index
        };
        proof {
            lemma_widths_remove(m, source_column_index as int);
            lemma_sum_nonneg(widths_of(m.remove(source_column_index as int)));
        }
        return move_after_closing_source(cols, source_column_index, target_index, source_column.cols, target_insert_index, moving_pane, viewport);
    }
    let ghost src2 = source_column@;
    cols.insert(source_column_index, source_column);
    assert(models(cols@) =~= m.update(source_column_index as int, src2));
    move_between_columns(cols, source_column_index, target_column_index, target_insert_index, moving_pane, viewport)
}

fn move_after_closing_source(
    cols: Vec<AcmeColumn>,
    source_column_index: usize,
    target_index: usize,
    width: usize,
    target_insert_index: usize,
    moving_pane: AcmePaneGeometry,
    viewport: Viewport,
) -> (r: Result<AcmePlan, AcmeError>)
    requires
        target_index < cols@.len(),
        sum(widths_of(models(cols@))) + width <= usize::MAX,
        viewport.x + viewport.cols <= usize::MAX,
        viewport.y + viewport.rows <= usize::MAX,
    ensures
        match r {
            Ok(plan) => move_closing_source(models(cols@), source_column_index as int, target_index as int, width as int, target_insert_index as int, moving_pane, viewport) == Ok::<Seq<(PaneId, PaneGeom)>, AcmeError>(plan@),
            Err(e) => move_closing_source(models(cols@), source_column_index as int, target_index as int, width as int, target_insert_index as int, moving_pane, viewport) == Err::<Seq<(PaneId, PaneGeom)>, AcmeError>(e),
        },
{
    let mut cols = cols;
    match expand_acme_columns_after_removing_column(&mut cols, source_column_index, width, viewport) {
        Err(e) => return Err(e),
        Ok(()) => {},
    }
    let ghost cs = models(cols@);
    let mut target_column = cols.remove(target_index);
    insert_pane(&mut target_column, target_insert_index, moving_pane);
    let ghost t1 = target_column@;
    match equalize_acme_column_rows(&mut target_column, viewport) {
        Err(e) => return Err(e),
        Ok(()) => {},
    }
    let ghost t2 = target_column@;
    cols.insert(target_index, target_column);
    assert(models(cols@) =~= cs.update(target_index as int, t1).update(target_index as int, t2));
    Ok(planned_geometries_for_columns(&cols, viewport))
}

fn move_between_columns(
    cols: Vec<AcmeColumn>,
    source_column_index: usize,
    target_column_index: usize,
    target_insert_index: usize,
    moving_pane: AcmePaneGeometry,
    viewport: Viewport,
) -> (r: Result<AcmePlan, AcmeError>)
    requires
        source_column_index < cols@.len(),
        target_column_index < cols@.len(),
        source_column_index != target_column_index,
        viewport.y + viewport.rows <= usize::MAX,
    ensures
        match r {
            Ok(plan) => move_between(models(cols@), source_column_index as int, target_column_index as int, target_insert_index as int, moving_pane, viewport) == Ok::<Seq<(PaneId, PaneGeom)>, AcmeError>(plan@),
            Err(e) => move_between(models(cols@), source_column_index as int, target_column_index as int, target_insert_index as int, moving_pane, viewport) == Err::<Seq<(PaneId, PaneGeom)>, AcmeError>(e),
        },
{
    let ghost cs1 = models(cols@);
    let mut cols = cols;
    let mut target_column = cols.remove(target_column_index);
    insert_pane(&mut target_column, target_insert_index, moving_pane);
    cols.insert(target_column_index, target_column);
    let ghost cs2 = models(cols@);
    assert(cs2 =~= cs1.update(target_column_index as int, insert_into(cs1[target_column_index as int], target_insert_index as int, moving_pane)));
    let mut source_column = cols.remove(source_column_index);
    match equalize_acme_column_rows(&mut source_column, viewport) {
        Err(e) => return Err(e),
        Ok(()) => {},
    }
    let ghost s3 = source_column@;
    cols.insert(source_column_index, source_column);
    let ghost cs3 = models(cols@);
    assert(cs3 =~= cs2.update(source_column_index as int, s3));
    let mut target_column = cols.remove(target_column_index);
    match equalize_acme_column_rows(&mut target_column, viewport) {
        Err(e) => return Err(e),
        Ok(()) => {},
    }
    let ghost t3 = target_column@;
    cols.insert(target_column_index, target_column);
    assert(models(cols@) =~= cs3.update(target_column_index as int, t3));
    Ok(planned_geometries_for_columns(&cols, viewport))
}

// ---------------------------------------------------------------------------------------------
// Reordering a pane within its column
// ---------------------------------------------------------------------------------------------

/// The panes of a column after the pane `id` is taken out and put back beside the pane `tid`:
/// right below it when dragged down, right above it when dragged up (as a reorder does).
pub open spec fn reordered_beside(panes: Seq<AcmePaneGeometry>, id: PaneId, tid: PaneId, down: bool) -> Seq<AcmePaneGeometry> {
    let spi = index_of(ids_of(panes), id)->0;
    let rest = panes.remove(spi);
    let t2 = index_of(ids_of(rest), tid)->0;
    let wanted = if down { t2 + 1 } else { t2 };
    let ins = if wanted <= rest.len() { wanted } else { rest.len() as int };
    rest.insert(ins, panes[spi])
}

/// The plan after a pane is dragged from line `start_line` and released on another pane of its
/// own column: it goes below that pane when dragged down, above it when dragged up, and the
/// column is laid out again with the heights its panes have. Nothing when the release is
/// outside the viewport, in another column, on no pane, on the pane itself, where it started,
/// or when the order does not change.
pub open spec fn reorder_plan(columns: Seq<ColumnModel>, id: PaneId, start_line: int, release_line: int, release_column: int, viewport: Viewport) -> Result<Seq<(PaneId, PaneGeom)>, AcmeError> {
    if !in_viewport(release_line, release_column, viewport) {
        Ok(Seq::empty())
    } else {
        match column_with_pane(columns, id) {
            None => Err(AcmeError::PaneNotInAcmeColumn),
            Some(si) => match column_at(columns, release_column) {
                None => Ok(Seq::empty()),
                Some(ti) => if si != ti || release_line == start_line {
                    Ok(Seq::empty())
                } else {
                    match pane_at_line(columns[si], release_line) {
                        None => Ok(Seq::empty()),
                        Some(tpi) => {
                            let c = columns[si];
                            let tid = c.panes[tpi].pane_id;
                            if tid == id {
                                Ok(Seq::empty())
                            } else {
                                let reordered = reordered_beside(c.panes, id, tid, release_line > start_line);
                                if ids_of(reordered) == ids_of(c.panes) {
                                    Ok(Seq::empty())
                                } else {
                                    match stack_column(with_panes(c, reordered), viewport) {
                                        Err(e) => Err(e),
                                        Ok(c2) => Ok(layout_plan(columns.update(si, c2), viewport.cols)),
                                    }
                                }
                            }
                        },
                    }
                },
            },
        }
    }
}

#[verifier::rlimit(50)]
pub fn acme_geometries_after_reordering_pane(
    columns: &[AcmeColumn],
    pane_id: PaneId,
    start_line: isize,
    release_line: isize,
    release_column: usize,
    viewport: Viewport,
) -> (r: Result<AcmePlan, AcmeError>)
    requires
        layout_fits(models(columns@), viewport),
    ensures
        match r {
            Ok(plan) => reorder_plan(models(columns@), pane_id, start_line as int, release_line as int, release_column as int, viewport) == Ok::<Seq<(PaneId, PaneGeom)>, AcmeError>(plan@),
            Err(e) => reorder_plan(models(columns@), pane_id, start_line as int, release_line as int, release_column as int, viewport) == Err::<Seq<(PaneId, PaneGeom)>, AcmeError>(e),
        },
{
    let ghost m = models(columns@);
    proof {
        lemma_sum_nonneg(widths_of(m));
    }
    if !position_in_viewport(release_line, release_column, viewport) {
        return Ok(Vec::new());
    }
    let source_column_index = match find_column_with_pane(columns, pane_id) {
        Some(i) => i,
        None => return Err(AcmeError::PaneNotInAcmeColumn),
    };
    proof {
        lemma_column_with_pane_found(m, pane_id, 0);
        assert(m[source_column_index as int] == columns@[source_column_index as int]@);
    }
    let target_column_index = match acme_column_index_at_position(columns, release_column) {
        Some(i) => i,
        None => return Ok(Vec::new()),
    };
    if source_column_index != target_column_index || release_line == start_line {
        return Ok(Vec::new());
    }
    let target_pane_index = match acme_pane_index_at_line(&columns[source_column_index], release_line) {
        Some(i) => i,
        None => return Ok(Vec::new()),
    };
    proof {
        lemma_pane_at_line_found(m[source_column_index as int], release_line as int, 0);
    }
    let target_pane_id = columns[source_column_index].pane_geometries[target_pane_index].pane_id;
    if target_pane_id == pane_id {
        return Ok(Vec::new());
    }
    let source_pane_index = match columns[source_column_index].pane_index(pane_id) {
        Some(i) => i,
        None => return Err(AcmeError::PaneNotInAcmeColumn),
    };
    proof {
        lemma_first_index_is_index_of(ids_of(m[source_column_index as int].panes), pane_id, source_pane_index as int);
    }
    let mut cols = copy_columns(columns);
    let mut column = cols.remove(source_column_index);
    let ghost c = column@;
    let original_pane_ids = column.pane_ids();
    let moving_pane = column.pane_geometries.remove(source_pane_index);
    let ghost rest = column.pane_geometries@;
    let t2 = match column.pane_index(target_pane_id) {
        Some(i) => i,
        None => {
            proof {
                let k = if target_pane_index < source_pane_index { target_pane_index as int } else { target_pane_index - 1 };
                assert(rest[k] == c.panes[target_pane_index as int]);
                assert(ids_of(rest)[k] == target_pane_id);
            }
            return Err(AcmeError::PaneNotInAcmeColumn);
        },
    };
    proof {
        lemma_first_index_is_index_of(ids_of(rest), target_pane_id, t2 as int);
    }
    assert(t2 < column.pane_geometries.len());
    let wanted = if release_line > start_line { t2 + 1 } else { t2 };
    let len = column.pane_geometries.len();
    let insert_index = if wanted <= len { wanted } else { len };
    column.pane_geometries.insert(insert_index, moving_pane);
    let reordered_ids = column.pane_ids();
    if crate::acme::same_pane_ids(&reordered_ids, &original_pane_ids) {
        return Ok(Vec::new());
    }
    match stack_acme_column_rows(&mut column, viewport) {
        Err(e) => return Err(e),
        Ok(()) => {},
    }
    let ghost c2 = column@;
    cols.insert(source_column_index, column);
    assert(models(cols@) =~= m.update(source_column_index as int, c2));
    Ok(planned_geometries_for_columns(&cols, viewport))
}

} // verus!
