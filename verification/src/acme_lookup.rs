use vstd::prelude::*;
use crate::geom::PaneId;
use crate::acme::{AcmeColumn, ColumnModel, ACME_COLLAPSED_PANE_ROWS, ids_of};

verus! {

/// The first column, from the left, holding the pane.
pub open spec fn column_with_pane_from(columns: Seq<ColumnModel>, id: PaneId, i: int) -> Option<int>
    decreases columns.len() - i,
{
    if i < 0 || i >= columns.len() {
        None
    } else if ids_of(columns[i].panes).contains(id) {
        Some(i)
    } else {
        column_with_pane_from(columns, id, i + 1)
    }
}

pub open spec fn column_with_pane(columns: Seq<ColumnModel>, id: PaneId) -> Option<int> {
    column_with_pane_from(columns, id, 0)
}

pub proof fn lemma_column_with_pane_found(columns: Seq<ColumnModel>, id: PaneId, i: int)
    requires
        0 <= i <= columns.len(),
        column_with_pane_from(columns, id, i) is Some,
    ensures
        ({
            let k = column_with_pane_from(columns, id, i)->0;
            i <= k < columns.len() && ids_of(columns[k].panes).contains(id)
        }),
    decreases columns.len() - i,
{
    if i < columns.len() && !ids_of(columns[i].panes).contains(id) {
        lemma_column_with_pane_found(columns, id, i + 1);
    }
}

/// The first column whose span of the display holds column `x` of the display.
pub open spec fn column_at_from(columns: Seq<ColumnModel>, x: int, i: int) -> Option<int>
    decreases columns.len() - i,
{
    if i < 0 || i >= columns.len() {
        None
    } else if columns[i].x <= x < columns[i].x + columns[i].cols {
        Some(i)
    } else {
        column_at_from(columns, x, i + 1)
    }
}

pub open spec fn column_at(columns: Seq<ColumnModel>, x: int) -> Option<int> {
    column_at_from(columns, x, 0)
}

pub proof fn lemma_column_at_found(columns: Seq<ColumnModel>, x: int, i: int)
    requires
        0 <= i <= columns.len(),
        column_at_from(columns, x, i) is Some,
    ensures
        i <= column_at_from(columns, x, i)->0 < columns.len(),
    decreases columns.len() - i,
{
    if i < columns.len() && !(columns[i].x <= x < columns[i].x + columns[i].cols) {
        lemma_column_at_found(columns, x, i + 1);
    }
}

/// The first pane of a column whose rows hold display line `line`.
pub open spec fn pane_at_line_from(column: ColumnModel, line: int, i: int) -> Option<int>
    decreases column.panes.len() - i,
{
    if i < 0 || i >= column.panes.len() {
        None
    } else if column.panes[i].geom.y <= line < column.panes[i].geom.y
        + column.panes[i].geom.rows.cells() {
        Some(i)
    } else {
        pane_at_line_from(column, line, i + 1)
    }
}

pub open spec fn pane_at_line(column: ColumnModel, line: int) -> Option<int> {
    pane_at_line_from(column, line, 0)
}

pub proof fn lemma_pane_at_line_found(column: ColumnModel, line: int, i: int)
    requires
        0 <= i <= column.panes.len(),
        pane_at_line_from(column, line, i) is Some,
    ensures
        i <= pane_at_line_from(column, line, i)->0 < column.panes.len(),
    decreases column.panes.len() - i,
{
    if i < column.panes.len() && !(column.panes[i].geom.y <= line < column.panes[i].geom.y
        + column.panes[i].geom.rows.cells()) {
        lemma_pane_at_line_found(column, line, i + 1);
    }
}

/// Where a pane dropped at `line` goes in a column: below the pane at that line, or last.
pub open spec fn insert_index_at_line(column: ColumnModel, line: int) -> int {
    match pane_at_line(column, line) {
        Some(i) => i + 1,
        None => column.panes.len() as int,
    }
}

/// The first index of a pane id in a sequence of ids.
pub open spec fn index_of_from(ids: Seq<PaneId>, id: PaneId, i: int) -> Option<int>
    decreases ids.len() - i,
{
    if i < 0 || i >= ids.len() {
        None
    } else if ids[i] == id {
        Some(i)
    } else {
        index_of_from(ids, id, i + 1)
    }
}

pub open spec fn index_of(ids: Seq<PaneId>, id: PaneId) -> Option<int> {
    index_of_from(ids, id, 0)
}

pub proof fn lemma_index_of(ids: Seq<PaneId>, id: PaneId, i: int)
    requires
        0 <= i <= ids.len(),
    ensures
        match index_of_from(ids, id, i) {
            Some(k) => i <= k < ids.len() && ids[k] == id && forall|j: int| i <= j < k ==> ids[j] != id,
            None => forall|j: int| i <= j < ids.len() ==> ids[j] != id,
        },
    decreases ids.len() - i,
{
    if i < ids.len() && ids[i] != id {
        lemma_index_of(ids, id, i + 1);
    }
}

pub fn find_column_with_pane(columns: &[AcmeColumn], pane_id: PaneId) -> (r: Option<usize>)
    ensures
        match r {
            Some(i) => column_with_pane(columns@.map_values(|c: AcmeColumn| c@), pane_id) == Some(i as int),
            None => column_with_pane(columns@.map_values(|c: AcmeColumn| c@), pane_id) is None,
        },
{
    let ghost models = columns@.map_values(|c: AcmeColumn| c@);
    let mut i: usize = 0;
    while i < columns.len()
        invariant
            i <= columns@.len(),
            models == columns@.map_values(|c: AcmeColumn| c@),
            column_with_pane(models, pane_id) == column_with_pane_from(models, pane_id, i as int),
        decreases columns@.len() - i,
    {
        if columns[i].contains_pane(pane_id) {
            return Some(i);
        }
        i += 1;
    }
    None
}

pub fn acme_column_index_at_position(columns: &[AcmeColumn], position_column: usize) -> (r: Option<
    usize,
>)
    ensures
        match r {
            Some(i) => column_at(columns@.map_values(|c: AcmeColumn| c@), position_column as int) == Some(i as int),
            None => column_at(columns@.map_values(|c: AcmeColumn| c@), position_column as int) is None,
        },
{
    let ghost models = columns@.map_values(|c: AcmeColumn| c@);
    let mut i: usize = 0;
    while i < columns.len()
        invariant
            i <= columns@.len(),
            models == columns@.map_values(|c: AcmeColumn| c@),
            column_at(models, position_column as int) == column_at_from(models, position_column as int, i as int),
        decreases columns@.len() - i,
    {
        let column = &columns[i];
        if position_column >= column.x && (position_column as u128) < (column.x as u128) + (column.cols as u128) {
            return Some(i);
        }
        i += 1;
    }
    None
}

pub fn acme_pane_index_at_line(column: &AcmeColumn, line: isize) -> (r: Option<usize>)
    ensures
        match r {
            Some(i) => pane_at_line(column@, line as int) == Some(i as int),
            None => pane_at_line(column@, line as int) is None,
        },
{
    let mut i: usize = 0;
    while i < column.pane_geometries.len()
        invariant
            i <= column.pane_geometries@.len(),
            pane_at_line(column@, line as int) == pane_at_line_from(column@, line as int, i as int),
        decreases column.pane_geometries@.len() - i,
    {
        let geom = column.pane_geometries[i].geom;
        let top: i128 = geom.y as i128;
        let bottom: i128 = top + geom.rows.as_usize() as i128;
        if (line as i128) >= top && (line as i128) < bottom {
            return Some(i);
        }
        i += 1;
    }
    None
}

pub fn acme_insert_index_at_line(column: &AcmeColumn, line: isize) -> (r: usize)
    ensures
        r == insert_index_at_line(column@, line as int),
{
    match acme_pane_index_at_line(column, line) {
        Some(pane_index) => {
            proof {
                lemma_pane_at_line_found(column@, line as int, 0);
                assert(pane_index < column.pane_geometries@.len());
                assert(column.pane_geometries@.len() == column.pane_geometries.len());
            }
            pane_index + 1
        },
        None => column.pane_geometries.len(),
    }
}

/// The pane that takes the focus when a pane leaves its column: the one above it, or the one
/// below when it was on top; none when it was alone.
pub open spec fn neighbor_focus_target(column: ColumnModel, id: PaneId) -> Option<PaneId> {
    match index_of(ids_of(column.panes), id) {
        None => None,
        Some(i) => if column.panes.len() == 1 {
            None
        } else if i > 0 {
            Some(column.panes[i - 1].pane_id)
        } else {
            Some(column.panes[i + 1].pane_id)
        },
    }
}

pub fn acme_neighbor_focus_target(column: &AcmeColumn, pane_id: PaneId) -> (r: Option<PaneId>)
    ensures
        r == neighbor_focus_target(column@, pane_id),
{
    let ids = column.pane_ids();
    proof {
        lemma_index_of(ids@, pane_id, 0);
    }
    let mut i: usize = 0;
    while i < ids.len()
        invariant
            i <= ids@.len(),
            ids@ == ids_of(column.pane_geometries@),
            index_of(ids@, pane_id) == index_of_from(ids@, pane_id, i as int),
        decreases ids@.len() - i,
    {
        if ids[i] == pane_id {
            if column.pane_geometries.len() == 1 {
                return None;
            } else if i > 0 {
                return Some(column.pane_geometries[i - 1].pane_id);
            } else {
                return Some(column.pane_geometries[i + 1].pane_id);
            }
        }
        i += 1;
    }
    None
}

/// The first column, from the left, that names a focus target for the removed pane.
pub open spec fn focus_target_from(columns: Seq<ColumnModel>, id: PaneId, i: int) -> Option<PaneId>
    decreases columns.len() - i,
{
    if i < 0 || i >= columns.len() {
        None
    } else if neighbor_focus_target(columns[i], id) is Some {
        neighbor_focus_target(columns[i], id)
    } else {
        focus_target_from(columns, id, i + 1)
    }
}

pub fn acme_focus_target_after_removing_pane(columns: &[AcmeColumn], pane_id: PaneId) -> (r: Option<
    PaneId,
>)
    ensures
        r == focus_target_from(columns@.map_values(|c: AcmeColumn| c@), pane_id, 0),
{
    let ghost models = columns@.map_values(|c: AcmeColumn| c@);
    let mut i: usize = 0;
    while i < columns.len()
        invariant
            i <= columns@.len(),
            models == columns@.map_values(|c: AcmeColumn| c@),
            focus_target_from(models, pane_id, 0) == focus_target_from(models, pane_id, i as int),
        decreases columns@.len() - i,
    {
        let target = acme_neighbor_focus_target(&columns[i], pane_id);
        if target.is_some() {
            return target;
        }
        i += 1;
    }
    None
}

/// The pane fills its column while every other pane of it is collapsed.
pub open spec fn pane_is_maximized(column: ColumnModel, id: PaneId) -> bool {
    column.panes.len() > 1 && forall|i: int|
        0 <= i < column.panes.len() ==> if (#[trigger] column.panes[i]).pane_id == id {
            column.panes[i].geom.rows.cells() > ACME_COLLAPSED_PANE_ROWS
        } else {
            column.panes[i].geom.rows.cells() == ACME_COLLAPSED_PANE_ROWS
        }
}

pub fn acme_pane_is_maximized(column: &AcmeColumn, pane_id: PaneId) -> (r: bool)
    ensures
        r == pane_is_maximized(column@, pane_id),
{
    if column.pane_geometries.len() <= 1 {
        return false;
    }
    let mut i: usize = 0;
    while i < column.pane_geometries.len()
        invariant
            i <= column.pane_geometries@.len(),
            column.pane_geometries@.len() > 1,
            forall|j: int|
                0 <= j < i ==> if (#[trigger] column.pane_geometries@[j]).pane_id == pane_id {
                    column.pane_geometries@[j].geom.rows.cells() > ACME_COLLAPSED_PANE_ROWS
                } else {
                    column.pane_geometries@[j].geom.rows.cells() == ACME_COLLAPSED_PANE_ROWS
                },
        decreases column.pane_geometries@.len() - i,
    {
        let pane_geometry = column.pane_geometries[i];
        let rows = pane_geometry.geom.rows.as_usize();
        let ok = if pane_geometry.pane_id == pane_id {
            rows > ACME_COLLAPSED_PANE_ROWS
        } else {
            rows == ACME_COLLAPSED_PANE_ROWS
        };
        if !ok {
            return false;
        }
        i += 1;
    }
    true
}


proof fn lemma_column_at_first(columns: Seq<ColumnModel>, x: int, i: int)
    requires
        0 <= i <= columns.len(),
    ensures
        match column_at_from(columns, x, i) {
            Some(k) => i <= k < columns.len() && columns[k].x <= x < columns[k].x + columns[k].cols
                && forall|m: int| i <= m < k ==> !((#[trigger] columns[m]).x <= x < columns[m].x + columns[m].cols),
            None => forall|m: int| i <= m < columns.len() ==> !((#[trigger] columns[m]).x <= x < columns[m].x + columns[m].cols),
        },
    decreases columns.len() - i,
{
    if i < columns.len() {
        lemma_column_at_first(columns, x, i + 1);
    }
}

proof fn lemma_column_with_pane_first(columns: Seq<ColumnModel>, id: PaneId, i: int)
    requires
        0 <= i <= columns.len(),
    ensures
        match column_with_pane_from(columns, id, i) {
            Some(k) => i <= k < columns.len() && ids_of(columns[k].panes).contains(id)
                && forall|m: int| i <= m < k ==> !ids_of((#[trigger] columns[m]).panes).contains(id),
            None => forall|m: int| i <= m < columns.len() ==> !ids_of((#[trigger] columns[m]).panes).contains(id),
        },
    decreases columns.len() - i,
{
    if i < columns.len() {
        lemma_column_with_pane_first(columns, id, i + 1);
    }
}

proof fn lemma_pane_at_line_first(column: ColumnModel, line: int, i: int)
    requires
        0 <= i <= column.panes.len(),
    ensures
        match pane_at_line_from(column, line, i) {
            Some(k) => i <= k < column.panes.len() && column.panes[k].geom.y <= line < column.panes[k].geom.y
                + column.panes[k].geom.rows.cells() && forall|m: int| i <= m < k ==> !((#[trigger] column.panes[m]).geom.y <= line
                < column.panes[m].geom.y + column.panes[m].geom.rows.cells()),
            None => forall|m: int| i <= m < column.panes.len() ==> !((#[trigger] column.panes[m]).geom.y <= line
                < column.panes[m].geom.y + column.panes[m].geom.rows.cells()),
        },
    decreases column.panes.len() - i,
{
    if i < column.panes.len() {
        lemma_pane_at_line_first(column, line, i + 1);
    }
}

/// The lookups find the first match, from the left or from the top, and nothing only when
/// nothing matches: the column whose span of the display holds a display column, the column
/// holding a pane, and the pane of a column covering a display line.
pub proof fn law_lookups_find_the_first_match(columns: Seq<ColumnModel>, x: int, id: PaneId, column: ColumnModel, line: int)
    ensures
        match column_at(columns, x) {
            Some(k) => 0 <= k < columns.len() && columns[k].x <= x < columns[k].x + columns[k].cols
                && forall|m: int| 0 <= m < k ==> !((#[trigger] columns[m]).x <= x < columns[m].x + columns[m].cols),
            None => forall|m: int| 0 <= m < columns.len() ==> !((#[trigger] columns[m]).x <= x < columns[m].x + columns[m].cols),
        },
        match column_with_pane(columns, id) {
            Some(k) => 0 <= k < columns.len() && ids_of(columns[k].panes).contains(id)
                && forall|m: int| 0 <= m < k ==> !ids_of((#[trigger] columns[m]).panes).contains(id),
            None => forall|m: int| 0 <= m < columns.len() ==> !ids_of((#[trigger] columns[m]).panes).contains(id),
        },
        match pane_at_line(column, line) {
            Some(k) => 0 <= k < column.panes.len() && column.panes[k].geom.y <= line < column.panes[k].geom.y
                + column.panes[k].geom.rows.cells() && forall|m: int| 0 <= m < k ==> !((#[trigger] column.panes[m]).geom.y <= line
                < column.panes[m].geom.y + column.panes[m].geom.rows.cells()),
            None => forall|m: int| 0 <= m < column.panes.len() ==> !((#[trigger] column.panes[m]).geom.y <= line
                < column.panes[m].geom.y + column.panes[m].geom.rows.cells()),
        },
        match index_of(ids_of(column.panes), id) {
            Some(k) => 0 <= k < column.panes.len() && column.panes[k].pane_id == id
                && forall|m: int| 0 <= m < k ==> (#[trigger] column.panes[m]).pane_id != id,
            None => forall|m: int| 0 <= m < column.panes.len() ==> (#[trigger] column.panes[m]).pane_id != id,
        },
{
    lemma_column_at_first(columns, x, 0);
    lemma_column_with_pane_first(columns, id, 0);
    lemma_pane_at_line_first(column, line, 0);
    lemma_index_of(ids_of(column.panes), id, 0);
    assert(forall|m: int| 0 <= m < column.panes.len() ==> #[trigger] column.panes[m].pane_id == ids_of(column.panes)[m]);
}

} // verus!
