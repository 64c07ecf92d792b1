use vstd::prelude::*;
use crate::geom::PaneId;
use crate::acme::{AcmeColumn, AcmePaneGeometry, ColumnModel, ids_of};
use crate::acme_layout::models;

verus! {

/// The ids of the panes of all the columns, column by column, top to bottom.
pub open spec fn layout_ids(columns: Seq<ColumnModel>) -> Seq<PaneId>
    decreases columns.len(),
{
    if columns.len() == 0 {
        Seq::empty()
    } else {
        layout_ids(columns.drop_last()) + ids_of(columns.last().panes)
    }
}

/// The ids in order of first appearance, each once.
pub open spec fn dedup(s: Seq<PaneId>) -> Seq<PaneId>
    decreases s.len(),
{
    if s.len() == 0 {
        Seq::empty()
    } else {
        let d = dedup(s.drop_last());
        if d.contains(s.last()) {
            d
        } else {
            d.push(s.last())
        }
    }
}

/// Dropping repeats keeps every id and holds each once.
pub proof fn lemma_dedup(s: Seq<PaneId>)
    ensures
        dedup(s).no_duplicates(),
        forall|x: PaneId| dedup(s).contains(x) <==> s.contains(x),
    decreases s.len(),
{
    if s.len() > 0 {
        let d = dedup(s.drop_last());
        lemma_dedup(s.drop_last());
        assert forall|x: PaneId| dedup(s).contains(x) <==> s.contains(x) by {
            if s.contains(x) {
                let j = choose|j: int| 0 <= j < s.len() && s[j] == x;
                if j < s.len() - 1 {
                    assert(s.drop_last()[j] == x);
                    assert(s.drop_last().contains(x));
                }
            }
            if s.drop_last().contains(x) {
                let j = choose|j: int| 0 <= j < s.drop_last().len() && s.drop_last()[j] == x;
                assert(s[j] == x);
            }
            if !d.contains(s.last()) {
                if d.contains(x) {
                    let j = choose|j: int| 0 <= j < d.len() && d[j] == x;
                    assert(d.push(s.last())[j] == x);
                }
                if x == s.last() {
                    assert(d.push(s.last())[d.len() as int] == x);
                }
                if d.push(s.last()).contains(x) && x != s.last() {
                    let j = choose|j: int| 0 <= j < d.len() + 1 && d.push(s.last())[j] == x;
                    assert(j < d.len());
                    assert(d[j] == x);
                }
            }
            if x == s.last() {
                assert(s[s.len() - 1] == x);
            }
        }
        if !d.contains(s.last()) {
            assert forall|a: int, b: int| 0 <= a < b < d.push(s.last()).len() implies d.push(s.last())[a]
                != d.push(s.last())[b] by {
                if b == d.len() {
                    assert(d.contains(d[a]));
                }
            }
        }
    }
}

/// The pair ids: for each pane but the first of a column whose title has a line of its own,
/// the id of the pane right above it.
pub open spec fn column_panes_before(c: ColumnModel, own: Seq<PaneId>, upto: int) -> Seq<PaneId>
    decreases upto,
{
    if upto <= 1 || upto > c.panes.len() {
        Seq::empty()
    } else {
        let rest = column_panes_before(c, own, upto - 1);
        if own.contains(c.panes[upto - 1].pane_id) {
            rest.push(c.panes[upto - 2].pane_id)
        } else {
            rest
        }
    }
}

/// The pair ids of all the columns, from left to right.
pub open spec fn panes_before(columns: Seq<ColumnModel>, own: Seq<PaneId>) -> Seq<PaneId>
    decreases columns.len(),
{
    if columns.len() == 0 {
        Seq::empty()
    } else {
        panes_before(columns.drop_last(), own) + column_panes_before(
            columns.last(),
            own,
            columns.last().panes.len() as int,
        )
    }
}

/// Whether `id` is in the sequence.
fn contains_id(ids: &Vec<PaneId>, id: PaneId) -> (r: bool)
    ensures
        r == ids@.contains(id),
{
    let mut i: usize = 0;
    while i < ids.len()
        invariant
            i <= ids@.len(),
            forall|j: int| 0 <= j < i ==> ids@[j] != id,
        decreases ids@.len() - i,
    {
        if ids[i] == id {
            return true;
        }
        i += 1;
    }
    false
}

/// The ids, in order of first appearance, each once.
fn dedup_ids(s: &Vec<PaneId>) -> (ids: Vec<PaneId>)
    ensures
        ids@ == dedup(s@),
{
    let mut ids: Vec<PaneId> = Vec::new();
    let mut i: usize = 0;
    while i < s.len()
        invariant
            i <= s@.len(),
            ids@ == dedup(s@.take(i as int)),
        decreases s@.len() - i,
    {
        assert(s@.take(i + 1).drop_last() =~= s@.take(i as int));
        if !contains_id(&ids, s[i]) {
            ids.push(s[i]);
        }
        i += 1;
    }
    assert(s@.take(i as int) =~= s@);
    ids
}

/// The ids of the panes of all the columns.
fn all_pane_ids(columns: &[AcmeColumn]) -> (ids: Vec<PaneId>)
    ensures
        ids@ == layout_ids(models(columns@)),
{
    let ghost m = models(columns@);
    let mut ids: Vec<PaneId> = Vec::new();
    let mut i: usize = 0;
    while i < columns.len()
        invariant
            m == models(columns@),
            i <= columns@.len(),
            ids@ == layout_ids(m.take(i as int)),
        decreases columns@.len() - i,
    {
        let column = &columns[i];
        assert(m[i as int] == column@);
        let column_ids = column.pane_ids();
        let ghost base = ids@;
        let mut k: usize = 0;
        while k < column_ids.len()
            invariant
                k <= column_ids@.len(),
                ids@ == base + column_ids@.take(k as int),
            decreases column_ids@.len() - k,
        {
            ids.push(column_ids[k]);
            k += 1;
            assert(ids@ =~= base + column_ids@.take(k as int));
        }
        assert(column_ids@.take(k as int) =~= column_ids@);
        assert(m.take(i + 1).drop_last() =~= m.take(i as int));
        i += 1;
    }
    assert(m.take(i as int) =~= m);
    ids
}

/// The panes whose title an Acme column shows: every pane of every column, each once, in
/// order of appearance.
pub fn acme_title_pane_ids(columns: &[AcmeColumn]) -> (ids: Vec<PaneId>)
    ensures
        ids@ == dedup(layout_ids(models(columns@))),
{
    let all = all_pane_ids(columns);
    dedup_ids(&all)
}

/// The panes whose title sits on the line above them rather than on a line of their own: in
/// this layout, none.
pub fn acme_previous_line_title_pane_ids(columns: &[AcmeColumn]) -> (ids: Vec<PaneId>)
    ensures
        ids@.len() == 0,
{
    Vec::new()
}

/// The panes whose title takes a line of its own: those with a title, less those whose title
/// sits on the line above.
pub fn acme_own_line_title_pane_ids(columns: &[AcmeColumn]) -> (ids: Vec<PaneId>)
    ensures
        ids@ == dedup(layout_ids(models(columns@))),
{
    let previous = acme_previous_line_title_pane_ids(columns);
    let titles = acme_title_pane_ids(columns);
    let mut ids: Vec<PaneId> = Vec::new();
    let mut i: usize = 0;
    while i < titles.len()
        invariant
            i <= titles@.len(),
            previous@.len() == 0,
            ids@ == titles@.take(i as int),
        decreases titles@.len() - i,
    {
        if !contains_id(&previous, titles[i]) {
            ids.push(titles[i]);
        }
        i += 1;
        assert(ids@ =~= titles@.take(i as int));
    }
    assert(titles@.take(i as int) =~= titles@);
    ids
}

/// The panes right above a pane whose title has a line of its own, each once.
pub fn acme_panes_before_own_line_title(columns: &[AcmeColumn], own_line_title_pane_ids: &Vec<PaneId>) -> (ids: Vec<PaneId>)
    ensures
        ids@ == dedup(panes_before(models(columns@), own_line_title_pane_ids@)),
{
    let ghost m = models(columns@);
    let ghost own = own_line_title_pane_ids@;
    let mut pairs: Vec<PaneId> = Vec::new();
    let mut i: usize = 0;
    while i < columns.len()
        invariant
            m == models(columns@),
            own == own_line_title_pane_ids@,
            i <= columns@.len(),
            pairs@ == panes_before(m.take(i as int), own),
        decreases columns@.len() - i,
    {
        let column = &columns[i];
        assert(m[i as int] == column@);
        let ghost base = pairs@;
        let mut k: usize = 1;
        while k < column.pane_geometries.len()
            invariant
                own == own_line_title_pane_ids@,
                1 <= k,
                k <= column.pane_geometries@.len() || (column.pane_geometries@.len() == 0 && k == 1),
                pairs@ == base + column_panes_before(column@, own, k as int),
            decreases column.pane_geometries@.len() - k,
        {
            if contains_id(own_line_title_pane_ids, column.pane_geometries[k].pane_id) {
                pairs.push(column.pane_geometries[k - 1].pane_id);
            }
            k += 1;
            assert(pairs@ =~= base + column_panes_before(column@, own, k as int));
        }
        assert(pairs@ =~= base + column_panes_before(column@, own, column@.panes.len() as int));
        assert(m.take(i + 1).drop_last() =~= m.take(i as int));
        i += 1;
    }
    assert(m.take(i as int) =~= m);
    dedup_ids(&pairs)
}

/// A boundary segment above a pane whose title has a line of its own: its left edge (one column
/// left of the column, for the shared edge), its line (the one above the pane) and its width.
pub open spec fn title_segment(c: ColumnModel, p: AcmePaneGeometry) -> (usize, usize, usize) {
    (
        if c.x >= 1 { (c.x - 1) as usize } else { 0 },
        if p.geom.y >= 1 { (p.geom.y - 1) as usize } else { 0 },
        (c.cols + if c.x > 0 { 1int } else { 0 }) as usize,
    )
}

/// The boundary segments above every pane but the first of a column.
pub open spec fn column_title_segments(c: ColumnModel) -> Seq<(usize, usize, usize)> {
    if c.panes.len() == 0 {
        Seq::empty()
    } else {
        Seq::new((c.panes.len() - 1) as nat, |k: int| title_segment(c, c.panes[k + 1]))
    }
}

/// The boundary segments of all the columns, from left to right.
pub open spec fn title_segments(columns: Seq<ColumnModel>) -> Seq<(usize, usize, usize)>
    decreases columns.len(),
{
    if columns.len() == 0 {
        Seq::empty()
    } else {
        title_segments(columns.drop_last()) + column_title_segments(columns.last())
    }
}

proof fn lemma_layout_ids_contains(m: Seq<ColumnModel>, i: int, k: int)
    requires
        0 <= i < m.len(),
        0 <= k < m[i].panes.len(),
    ensures
        layout_ids(m).contains(m[i].panes[k].pane_id),
    decreases m.len(),
{
    if i == m.len() - 1 {
        let a = layout_ids(m.drop_last());
        assert((a + ids_of(m.last().panes))[a.len() + k] == m[i].panes[k].pane_id);
    } else {
        lemma_layout_ids_contains(m.drop_last(), i, k);
        let a = layout_ids(m.drop_last());
        let j = choose|j: int| 0 <= j < a.len() && a[j] == m[i].panes[k].pane_id;
        assert((a + ids_of(m.last().panes))[j] == m[i].panes[k].pane_id);
    }
}

/// The boundary segments drawn above the panes whose title has a line of its own.
pub fn acme_own_line_title_boundary_segments(columns: &[AcmeColumn]) -> (segments: Vec<(usize, usize, usize)>)
    requires
        forall|i: int| 0 <= i < columns@.len() && #[trigger] columns@[i].x > 0 ==> columns@[i].cols < usize::MAX,
    ensures
        segments@ == title_segments(models(columns@)),
{
    let ghost m = models(columns@);
    let own_line_title_pane_ids = acme_own_line_title_pane_ids(columns);
    proof {
        lemma_dedup(layout_ids(m));
    }
    let mut segments: Vec<(usize, usize, usize)> = Vec::new();
    let mut i: usize = 0;
    while i < columns.len()
        invariant
            m == models(columns@),
            i <= columns@.len(),
            forall|id: PaneId| own_line_title_pane_ids@.contains(id) <==> layout_ids(m).contains(id),
            forall|j: int| 0 <= j < columns@.len() && #[trigger] columns@[j].x > 0 ==> columns@[j].cols < usize::MAX,
            segments@ == title_segments(m.take(i as int)),
        decreases columns@.len() - i,
    {
        let column = &columns[i];
        assert(m[i as int] == column@);
        assert(column.x > 0 ==> column.cols < usize::MAX);
        let ghost base = segments@;
        let mut k: usize = 1;
        while k < column.pane_geometries.len()
            invariant
                m == models(columns@),
                i < columns@.len(),
                m[i as int] == column@,
                column.x > 0 ==> column.cols < usize::MAX,
                forall|id: PaneId| own_line_title_pane_ids@.contains(id) <==> layout_ids(m).contains(id),
                1 <= k,
                k <= column.pane_geometries@.len() || (column.pane_geometries@.len() == 0 && k == 1),
                segments@ == base + column_title_segments(column@).take(k - 1),
            decreases column.pane_geometries@.len() - k,
        {
            let pane = column.pane_geometries[k];
            proof {
                lemma_layout_ids_contains(m, i as int, k as int);
            }
            if contains_id(&own_line_title_pane_ids, pane.pane_id) {
                let x = column.x.saturating_sub(1);
                let width = column.cols + if column.x > 0 { 1 } else { 0 };
                segments.push((x, pane.geom.y.saturating_sub(1), width));
            }
            k += 1;
            assert(segments@ =~= base + column_title_segments(column@).take(k - 1));
        }
        proof {
            if column.pane_geometries@.len() == 0 {
                assert(column_title_segments(column@) =~= Seq::<(usize, usize, usize)>::empty());
                assert(column_title_segments(column@).take(0) =~= Seq::<(usize, usize, usize)>::empty());
                assert(segments@ =~= base + column_title_segments(column@));
            } else {
                assert(column_title_segments(column@).take(k - 1) =~= column_title_segments(column@));
            }
        }
        assert(m.take(i + 1).drop_last() =~= m.take(i as int));
        i += 1;
    }
    assert(m.take(i as int) =~= m);
    segments
}

} // verus!
