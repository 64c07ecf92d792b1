use vstd::prelude::*;
use crate::geom::{Dimension, PaneGeom, PaneId};
use crate::boundary_symbol::{BoundaryColor, RankedColor};

verus! {

/// A collapsed Acme pane shows only its title line.
pub const ACME_COLLAPSED_PANE_ROWS: usize = 1;
pub const ACME_TITLE_BUTTON_COLUMN_OFFSET: usize = 1;

/// The colour of the boundaries between Acme panes, at the lowest precedence.
pub fn acme_boundary_color() -> (c: Option<RankedColor>)
    ensures
        c == Some(RankedColor { color: BoundaryColor::Rgb(0x5a, 0xae, 0xc6), precedence: 0 }),
{
    Some(RankedColor { color: BoundaryColor::Rgb(0x5a, 0xae, 0xc6), precedence: 0 })
}

/// A pane of an Acme column and where it stands.
#[derive(Clone, Copy, Debug, PartialEq, Eq, Structural)]
pub struct AcmePaneGeometry {
    pub pane_id: PaneId,
    pub geom: PaneGeom,
}

/// A column of the Acme layout: its left edge, its width, and its panes from top to bottom.
#[derive(Clone, Debug)]
pub struct AcmeColumn {
    pub x: usize,
    pub cols: usize,
    pub pane_geometries: Vec<AcmePaneGeometry>,
}

/// An Acme column as a value.
pub struct ColumnModel {
    pub x: usize,
    pub cols: usize,
    pub panes: Seq<AcmePaneGeometry>,
}

impl View for AcmeColumn {
    type V = ColumnModel;

    open spec fn view(&self) -> ColumnModel {
        ColumnModel { x: self.x, cols: self.cols, panes: self.pane_geometries@ }
    }
}

/// The columns as values.
pub open spec fn column_models(columns: Seq<AcmeColumn>) -> Seq<ColumnModel> {
    columns.map_values(|c: AcmeColumn| c@)
}

/// The ids of a sequence of panes.
pub open spec fn ids_of(panes: Seq<AcmePaneGeometry>) -> Seq<PaneId> {
    panes.map_values(|p: AcmePaneGeometry| p.pane_id)
}

/// The heights of a sequence of panes.
pub open spec fn heights_of(panes: Seq<AcmePaneGeometry>) -> Seq<int> {
    panes.map_values(|p: AcmePaneGeometry| p.geom.rows.cells() as int)
}

/// The sum of a sequence of integers.
pub open spec fn sum(s: Seq<int>) -> int
    decreases s.len(),
{
    if s.len() == 0 {
        0
    } else {
        sum(s.drop_last()) + s.last()
    }
}

pub proof fn lemma_sum_append(a: Seq<int>, b: Seq<int>)
    ensures
        sum(a + b) == sum(a) + sum(b),
    decreases b.len(),
{
    if b.len() == 0 {
        assert(a + b =~= a);
    } else {
        assert((a + b).drop_last() =~= a + b.drop_last());
        lemma_sum_append(a, b.drop_last());
    }
}

pub proof fn lemma_sum_take_step(s: Seq<int>, k: int)
    requires
        0 <= k < s.len(),
    ensures
        sum(s.take(k + 1)) == sum(s.take(k)) + s[k],
{
    assert(s.take(k + 1).drop_last() =~= s.take(k));
}

pub proof fn lemma_sum_nonneg(s: Seq<int>)
    requires
        forall|i: int| 0 <= i < s.len() ==> s[i] >= 0,
    ensures
        sum(s) >= 0,
        forall|k: int| 0 <= k <= s.len() ==> sum(#[trigger] s.take(k)) <= sum(s),
    decreases s.len(),
{
    if s.len() > 0 {
        lemma_sum_nonneg(s.drop_last());
        assert forall|k: int| 0 <= k <= s.len() implies sum(#[trigger] s.take(k)) <= sum(s) by {
            if k < s.len() {
                assert(s.take(k) =~= s.drop_last().take(k));
            } else {
                assert(s.take(k) =~= s);
            }
        }
    }
}

/// `position_of(ids, id)` is the first index holding `id`.
pub open spec fn first_index_of(ids: Seq<PaneId>, id: PaneId, i: int) -> bool {
    &&& 0 <= i < ids.len()
    &&& ids[i] == id
    &&& forall|j: int| 0 <= j < i ==> ids[j] != id
}

impl AcmeColumn {
    pub fn contains_pane(&self, pane_id: PaneId) -> (r: bool)
        ensures
            r == ids_of(self.pane_geometries@).contains(pane_id),
    {
        match self.pane_index(pane_id) {
            Some(_) => true,
            None => false,
        }
    }

    /// The index of the pane in the column.
    pub fn pane_index(&self, pane_id: PaneId) -> (r: Option<usize>)
        ensures
            match r {
                Some(i) => first_index_of(ids_of(self.pane_geometries@), pane_id, i as int),
                None => !ids_of(self.pane_geometries@).contains(pane_id),
            },
    {
        let mut i: usize = 0;
        while i < self.pane_geometries.len()
            invariant
                i <= self.pane_geometries@.len(),
                forall|j: int| 0 <= j < i ==> self.pane_geometries@[j].pane_id != pane_id,
            decreases self.pane_geometries@.len() - i,
        {
            if self.pane_geometries[i].pane_id == pane_id {
                return Some(i);
            }
            i += 1;
        }
        assert(!ids_of(self.pane_geometries@).contains(pane_id)) by {
            if ids_of(self.pane_geometries@).contains(pane_id) {
                let j = choose|j: int|
                    0 <= j < ids_of(self.pane_geometries@).len() && ids_of(
                        self.pane_geometries@,
                    )[j] == pane_id;
                assert(self.pane_geometries@[j].pane_id == pane_id);
            }
        }
        None
    }

    pub fn pane_ids(&self) -> (ids: Vec<PaneId>)
        ensures
            ids@ == ids_of(self.pane_geometries@),
    {
        let mut ids: Vec<PaneId> = Vec::new();
        let mut i: usize = 0;
        while i < self.pane_geometries.len()
            invariant
                i <= self.pane_geometries@.len(),
                ids@ == ids_of(self.pane_geometries@.take(i as int)),
            decreases self.pane_geometries@.len() - i,
        {
            ids.push(self.pane_geometries[i].pane_id);
            i += 1;
            assert(ids@ =~= ids_of(self.pane_geometries@.take(i as int)));
        }
        assert(self.pane_geometries@.take(i as int) =~= self.pane_geometries@);
        ids
    }

    /// The heights of the column's panes, top to bottom.
    pub fn row_heights(&self) -> (rows: Vec<usize>)
        ensures
            rows@.len() == self.pane_geometries@.len(),
            forall|i: int|
                0 <= i < rows@.len() ==> rows@[i] == #[trigger] heights_of(self.pane_geometries@)[i],
    {
        let mut rows: Vec<usize> = Vec::new();
        let mut i: usize = 0;
        while i < self.pane_geometries.len()
            invariant
                i <= self.pane_geometries@.len(),
                rows@.len() == i,
                forall|j: int|
                    0 <= j < i ==> rows@[j] == #[trigger] heights_of(self.pane_geometries@)[j],
            decreases self.pane_geometries@.len() - i,
        {
            rows.push(self.pane_geometries[i].geom.rows.as_usize());
            i += 1;
        }
        rows
    }
}

/// Two sequences of pane ids are equal.
pub fn same_pane_ids(a: &Vec<PaneId>, b: &Vec<PaneId>) -> (r: bool)
    ensures
        r == (a@ == b@),
{
    if a.len() != b.len() {
        return false;
    }
    let mut i: usize = 0;
    while i < a.len()
        invariant
            a@.len() == b@.len(),
            i <= a@.len(),
            forall|j: int| 0 <= j < i ==> a@[j] == b@[j],
        decreases a@.len() - i,
    {
        if a[i] != b[i] {
            return false;
        }
        i += 1;
    }
    assert(a@ =~= b@);
    true
}

/// The heights of a column's panes when a resize began, to return to them later.
#[derive(Clone, Debug)]
pub struct AcmePaneRowsSnapshot {
    pub target_pane_id: PaneId,
    pub pane_rows: Vec<(PaneId, Dimension)>,
}

impl AcmePaneRowsSnapshot {
    pub open spec fn ids(&self) -> Seq<PaneId> {
        self.pane_rows@.map_values(|e: (PaneId, Dimension)| e.0)
    }

    pub fn new(column: &AcmeColumn, target_pane_id: PaneId) -> (s: Self)
        ensures
            s.target_pane_id == target_pane_id,
            s.pane_rows@ == column.pane_geometries@.map_values(
                |p: AcmePaneGeometry| (p.pane_id, p.geom.rows),
            ),
    {
        let mut pane_rows: Vec<(PaneId, Dimension)> = Vec::new();
        let mut i: usize = 0;
        while i < column.pane_geometries.len()
            invariant
                i <= column.pane_geometries@.len(),
                pane_rows@ == column.pane_geometries@.take(i as int).map_values(
                    |p: AcmePaneGeometry| (p.pane_id, p.geom.rows),
                ),
            decreases column.pane_geometries@.len() - i,
        {
            let p = column.pane_geometries[i];
            pane_rows.push((p.pane_id, p.geom.rows));
            i += 1;
            assert(pane_rows@ =~= column.pane_geometries@.take(i as int).map_values(
                |p: AcmePaneGeometry| (p.pane_id, p.geom.rows),
            ));
        }
        assert(column.pane_geometries@.take(i as int) =~= column.pane_geometries@);
        AcmePaneRowsSnapshot { target_pane_id, pane_rows }
    }

    pub fn pane_ids(&self) -> (ids: Vec<PaneId>)
        ensures
            ids@ == self.ids(),
    {
        let mut ids: Vec<PaneId> = Vec::new();
        let mut i: usize = 0;
        while i < self.pane_rows.len()
            invariant
                i <= self.pane_rows@.len(),
                ids@ == self.pane_rows@.take(i as int).map_values(|e: (PaneId, Dimension)| e.0),
            decreases self.pane_rows@.len() - i,
        {
            ids.push(self.pane_rows[i].0);
            i += 1;
            assert(ids@ =~= self.pane_rows@.take(i as int).map_values(
                |e: (PaneId, Dimension)| e.0,
            ));
        }
        assert(self.pane_rows@.take(i as int) =~= self.pane_rows@);
        ids
    }

    /// The column still holds the same panes, in the same order.
    pub fn matches_column(&self, column: &AcmeColumn) -> (r: bool)
        ensures
            r == (self.ids() == ids_of(column.pane_geometries@)),
    {
        let mine = self.pane_ids();
        let theirs = column.pane_ids();
        same_pane_ids(&mine, &theirs)
    }
}

/// A share of `full_size` that takes `inner` cells.
pub fn percent_dimension(inner: usize, full_size: usize) -> (d: Dimension)
    ensures
        d == (Dimension::Percent { inner, full: full_size }),
{
    Dimension::Percent { inner, full: full_size }
}

/// The height an Acme pane of `rows` rows gets: fixed when collapsed, else a share of the
/// viewport.
pub open spec fn rows_dimension(rows: usize, viewport_rows: usize) -> Dimension {
    if rows == ACME_COLLAPSED_PANE_ROWS {
        Dimension::Fixed(ACME_COLLAPSED_PANE_ROWS)
    } else {
        Dimension::Percent { inner: rows, full: viewport_rows }
    }
}

pub fn acme_rows_dimension(rows: usize, viewport_rows: usize) -> (d: Dimension)
    ensures
        d == rows_dimension(rows, viewport_rows),
{
    if rows == ACME_COLLAPSED_PANE_ROWS {
        Dimension::fixed(ACME_COLLAPSED_PANE_ROWS)
    } else {
        percent_dimension(rows, viewport_rows)
    }
}

/// `total` split into `count` lengths as equal as can be, the longer ones first.
pub open spec fn equalized(total: int, count: int) -> Seq<int> {
    Seq::new(
        count as nat,
        |i: int| total / count + if i < total % count {
            1int
        } else {
            0
        },
    )
}

pub fn equalized_lengths(total_size: usize, item_count: usize) -> (lengths: Vec<usize>)
    ensures
        lengths@.len() == item_count,
        forall|i: int|
            0 <= i < item_count ==> lengths@[i] as int == #[trigger] equalized(
                total_size as int,
                item_count as int,
            )[i],
{
    if item_count == 0 {
        return Vec::new();
    }
    let base_size = total_size / item_count;
    let remainder = total_size % item_count;
    let mut lengths: Vec<usize> = Vec::new();
    let mut index: usize = 0;
    while index < item_count
        invariant
            item_count > 0,
            base_size == total_size / item_count,
            remainder == total_size % item_count,
            index <= item_count,
            lengths@.len() == index,
            forall|i: int|
                0 <= i < index ==> lengths@[i] as int == #[trigger] equalized(
                    total_size as int,
                    item_count as int,
                )[i],
        decreases item_count - index,
    {
        assert(base_size + 1 <= total_size || remainder == 0) by (nonlinear_arith)
            requires
                item_count > 0,
                base_size == total_size / item_count,
                remainder == total_size % item_count,
        {
            if remainder > 0 {
                assert(total_size == item_count * base_size + remainder);
                assert(item_count * base_size >= base_size);
            }
        }
        let extra: usize = if index < remainder {
            1
        } else {
            0
        };
        lengths.push(base_size + extra);
        index += 1;
    }
    lengths
}

proof fn lemma_equalized_sum_take(total: int, count: int, k: int)
    requires
        0 <= total,
        0 < count,
        0 <= k <= count,
    ensures
        sum(equalized(total, count).take(k)) == k * (total / count) + if k < total % count {
            k
        } else {
            total % count
        },
    decreases k,
{
    let e = equalized(total, count);
    if k == 0 {
        assert(e.take(0) =~= Seq::<int>::empty());
    } else {
        lemma_equalized_sum_take(total, count, k - 1);
        lemma_sum_take_step(e, k - 1);
        let q = total / count;
        let r = total % count;
        assert(e[k - 1] == q + if k - 1 < r { 1int } else { 0int });
        assert((k - 1) * q + q == k * q) by (nonlinear_arith);
        assert(sum(e.take(k)) == sum(e.take(k - 1)) + e[k - 1]);
        assert(sum(e.take(k - 1)) == (k - 1) * q + if k - 1 < r { k - 1 } else { r });
        assert(sum(e.take(k)) == k * q + if k < r { k } else { r });
    }
}

/// Splitting `total` rows among `count` panes loses no row, no two shares differ by more
/// than one, and the longer shares come first.
pub proof fn lemma_equalized_sum(total: int, count: int)
    requires
        0 <= total,
        0 < count,
    ensures
        equalized(total, count).len() == count,
        sum(equalized(total, count)) == total,
        forall|i: int, j: int|
            0 <= i < count && 0 <= j < count ==> #[trigger] equalized(total, count)[i]
                <= #[trigger] equalized(total, count)[j] + 1,
        forall|i: int, j: int|
            0 <= i <= j < count ==> #[trigger] equalized(total, count)[i] >= #[trigger] equalized(total, count)[j],
{
    lemma_equalized_sum_take(total, count, count);
    assert(equalized(total, count).take(count) =~= equalized(total, count));
    vstd::arithmetic::div_mod::lemma_fundamental_div_mod(total, count);
    assert(total % count < count);
}

/// A sequence of sizes as integers.
pub open spec fn as_ints(s: Seq<usize>) -> Seq<int> {
    s.map_values(|r: usize| r as int)
}

/// The number of entries equal to `value`.
pub open spec fn count_eq(s: Seq<int>, value: int) -> nat
    decreases s.len(),
{
    if s.len() == 0 {
        0
    } else {
        count_eq(s.drop_last(), value) + if s.last() == value {
            1nat
        } else {
            0
        }
    }
}

/// New heights for a column: collapsed panes stay collapsed, and the rows they leave are
/// shared equally by the others; when every pane is collapsed all rows are shared equally.
pub open spec fn equalized_rows(existing: Seq<int>, viewport_rows: int) -> Seq<int> {
    let collapsed = count_eq(existing, ACME_COLLAPSED_PANE_ROWS as int) as int;
    let expanded = existing.len() - collapsed;
    if expanded == 0 {
        equalized(viewport_rows, existing.len() as int)
    } else {
        let expanded_total = if viewport_rows >= collapsed {
            viewport_rows - collapsed
        } else {
            0
        };
        let shares = equalized(expanded_total, expanded);
        Seq::new(
            existing.len(),
            |i: int|
                if existing[i] == ACME_COLLAPSED_PANE_ROWS {
                    ACME_COLLAPSED_PANE_ROWS as int
                } else {
                    shares[i - count_eq(existing.take(i), ACME_COLLAPSED_PANE_ROWS as int)]
                },
        )
    }
}

pub proof fn lemma_count_eq_bound(s: Seq<int>, value: int)
    ensures
        count_eq(s, value) <= s.len(),
        forall|k: int| 0 <= k <= s.len() ==> count_eq(#[trigger] s.take(k), value) <= count_eq(s, value),
        forall|k: int| 0 <= k <= s.len() ==> k - count_eq(#[trigger] s.take(k), value) <= s.len() - count_eq(s, value),
    decreases s.len(),
{
    if s.len() > 0 {
        lemma_count_eq_bound(s.drop_last(), value);
        assert forall|k: int| 0 <= k <= s.len() implies count_eq(#[trigger] s.take(k), value)
            <= count_eq(s, value) && k - count_eq(s.take(k), value) <= s.len() - count_eq(s, value) by {
            if k < s.len() {
                assert(s.take(k) =~= s.drop_last().take(k));
            } else {
                assert(s.take(k) =~= s);
            }
        }
    }
}

pub fn equalized_acme_row_heights(existing_rows: &[usize], viewport_rows: usize) -> (rows: Vec<
    usize,
>)
    ensures
        rows@.len() == existing_rows@.len(),
        forall|i: int|
            0 <= i < rows@.len() ==> rows@[i] as int == #[trigger] equalized_rows(
                as_ints(existing_rows@),
                viewport_rows as int,
            )[i],
{
    let ghost existing = as_ints(existing_rows@);
    let mut collapsed_pane_count: usize = 0;
    let mut i: usize = 0;
    while i < existing_rows.len()
        invariant
            i <= existing_rows@.len(),
            existing == as_ints(existing_rows@),
            collapsed_pane_count == count_eq(existing.take(i as int), ACME_COLLAPSED_PANE_ROWS as int),
            collapsed_pane_count <= i,
        decreases existing_rows@.len() - i,
    {
        assert(existing.take(i + 1).drop_last() =~= existing.take(i as int));
        if existing_rows[i] == ACME_COLLAPSED_PANE_ROWS {
            collapsed_pane_count += 1;
        }
        i += 1;
    }
    assert(existing.take(i as int) =~= existing);
    let expanded_pane_count = existing_rows.len() - collapsed_pane_count;
    if expanded_pane_count == 0 {
        let lengths = equalized_lengths(viewport_rows, existing_rows.len());
        return lengths;
    }
    let expanded_rows_total = viewport_rows.saturating_sub(collapsed_pane_count);
    let shares = equalized_lengths(expanded_rows_total, expanded_pane_count);
    proof {
        lemma_count_eq_bound(existing, ACME_COLLAPSED_PANE_ROWS as int);
    }
    let mut rows: Vec<usize> = Vec::new();
    let mut next_share: usize = 0;
    let mut j: usize = 0;
    while j < existing_rows.len()
        invariant
            j <= existing_rows@.len(),
            existing == as_ints(existing_rows@),
            collapsed_pane_count == count_eq(existing, ACME_COLLAPSED_PANE_ROWS as int),
            expanded_pane_count == existing.len() - collapsed_pane_count,
            expanded_pane_count > 0,
            expanded_rows_total == viewport_rows.saturating_sub(collapsed_pane_count),
            shares@.len() == expanded_pane_count,
            forall|k: int|
                0 <= k < expanded_pane_count ==> shares@[k] as int == #[trigger] equalized(
                    expanded_rows_total as int,
                    expanded_pane_count as int,
                )[k],
            next_share == j - count_eq(existing.take(j as int), ACME_COLLAPSED_PANE_ROWS as int),
            forall|k: int| 0 <= k <= existing.len() ==> k - count_eq(#[trigger] existing.take(k), ACME_COLLAPSED_PANE_ROWS as int) <= existing.len() - count_eq(existing, ACME_COLLAPSED_PANE_ROWS as int),
            rows@.len() == j,
            forall|k: int|
                0 <= k < j ==> rows@[k] as int == #[trigger] equalized_rows(existing, viewport_rows as int)[k],
        decreases existing_rows@.len() - j,
    {
        assert(existing.take(j + 1).drop_last() =~= existing.take(j as int));
        if existing_rows[j] == ACME_COLLAPSED_PANE_ROWS {
            rows.push(ACME_COLLAPSED_PANE_ROWS);
        } else {
            assert(next_share < expanded_pane_count) by {
                assert((j + 1) - count_eq(existing.take(j + 1), ACME_COLLAPSED_PANE_ROWS as int)
                    <= existing.len() - count_eq(existing, ACME_COLLAPSED_PANE_ROWS as int));
            }
            rows.push(shares[next_share]);
            next_share += 1;
        }
        j += 1;
    }
    rows
}

} // verus!
