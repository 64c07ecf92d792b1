use vstd::prelude::*;
use vstd::multiset::Multiset;
use vstd::seq_lib::{lemma_multiset_commutative, to_multiset_insert, to_multiset_remove};
use crate::geom::{PaneGeom, PaneId, Viewport};
use crate::acme::{AcmePaneGeometry, ColumnModel, ids_of};
use crate::acme_layout::{
    column_plan, equalize_column, expand_columns, insert_into, layout_plan, move_between,
    move_closing_source, move_plan, with_panes, reorder_plan, reordered_beside, stack_column,
};
use crate::acme_lookup::{
    column_at, column_with_pane, index_of, insert_index_at_line, lemma_column_at_found,
    lemma_column_with_pane_found, lemma_index_of, lemma_pane_at_line_found, pane_at_line,
};
use crate::acme_plan::restacked;
use crate::acme_laws::{column_tiles, law_equalized_columns_are_tiled, law_reordering_places_the_pane_beside_the_target};
use crate::acme_plan::rows_of;

verus! {

/// The pane ids of the columns, column by column from the left, each top to bottom.
pub open spec fn all_ids(columns: Seq<ColumnModel>) -> Seq<PaneId>
    decreases columns.len(),
{
    if columns.len() == 0 {
        Seq::empty()
    } else {
        all_ids(columns.drop_last()) + ids_of(columns.last().panes)
    }
}

/// The pane ids of a plan, in its order.
pub open spec fn plan_ids(plan: Seq<(PaneId, PaneGeom)>) -> Seq<PaneId> {
    plan.map_values(|e: (PaneId, PaneGeom)| e.0)
}

proof fn lemma_plan_ids(columns: Seq<ColumnModel>, viewport_cols: usize)
    ensures
        plan_ids(layout_plan(columns, viewport_cols)) == all_ids(columns),
    decreases columns.len(),
{
    if columns.len() > 0 {
        lemma_plan_ids(columns.drop_last(), viewport_cols);
        let a = layout_plan(columns.drop_last(), viewport_cols);
        let b = column_plan(columns.last(), viewport_cols);
        assert(plan_ids(a + b) =~= plan_ids(a) + plan_ids(b));
        assert(plan_ids(b) =~= ids_of(columns.last().panes));
    }
}

/// Columns whose panes have the same ids, column by column, have the same ids in all.
proof fn lemma_all_ids_same(a: Seq<ColumnModel>, b: Seq<ColumnModel>)
    requires
        a.len() == b.len(),
        forall|i: int| 0 <= i < a.len() ==> ids_of(#[trigger] a[i].panes) == ids_of(b[i].panes),
    ensures
        all_ids(a) == all_ids(b),
    decreases a.len(),
{
    if a.len() > 0 {
        assert forall|i: int| 0 <= i < a.len() - 1 implies ids_of(#[trigger] a.drop_last()[i].panes) == ids_of(
            b.drop_last()[i].panes,
        ) by {
            assert(a.drop_last()[i] == a[i]);
            assert(b.drop_last()[i] == b[i]);
        }
        lemma_all_ids_same(a.drop_last(), b.drop_last());
        assert(ids_of(a.last().panes) == ids_of(b[b.len() - 1].panes));
    }
}

/// Replacing a column trades its ids for the new column's.
proof fn lemma_all_ids_update(columns: Seq<ColumnModel>, i: int, c: ColumnModel)
    requires
        0 <= i < columns.len(),
    ensures
        all_ids(columns.update(i, c)).to_multiset().add(ids_of(columns[i].panes).to_multiset())
            == all_ids(columns).to_multiset().add(ids_of(c.panes).to_multiset()),
    decreases columns.len(),
{
    broadcast use vstd::multiset::group_multiset_axioms;
    let u = columns.update(i, c);
    let n = columns.len() - 1;
    lemma_multiset_commutative(all_ids(u.drop_last()), ids_of(u.last().panes));
    lemma_multiset_commutative(all_ids(columns.drop_last()), ids_of(columns.last().panes));
    if i == n {
        assert(u.drop_last() =~= columns.drop_last());
        assert(all_ids(u).to_multiset().add(ids_of(columns[i].panes).to_multiset()) =~= all_ids(
            columns,
        ).to_multiset().add(ids_of(c.panes).to_multiset()));
    } else {
        assert(u.drop_last() =~= columns.drop_last().update(i, c));
        assert(u.last() == columns.last());
        assert(columns.drop_last()[i] == columns[i]);
        lemma_all_ids_update(columns.drop_last(), i, c);
        let x = ids_of(columns[i].panes).to_multiset();
        let y = ids_of(c.panes).to_multiset();
        let l = ids_of(columns.last().panes).to_multiset();
        let a = all_ids(u.drop_last()).to_multiset();
        let b = all_ids(columns.drop_last()).to_multiset();
        assert(a.add(x) == b.add(y));
        assert(a.add(l).add(x) =~= a.add(x).add(l));
        assert(b.add(l).add(y) =~= b.add(y).add(l));
        assert(all_ids(u).to_multiset().add(ids_of(columns[i].panes).to_multiset()) =~= all_ids(
            columns,
        ).to_multiset().add(ids_of(c.panes).to_multiset()));
    }
}

/// Taking a column out takes its ids out.
proof fn lemma_all_ids_remove(columns: Seq<ColumnModel>, i: int)
    requires
        0 <= i < columns.len(),
    ensures
        all_ids(columns.remove(i)).to_multiset().add(ids_of(columns[i].panes).to_multiset())
            == all_ids(columns).to_multiset(),
    decreases columns.len(),
{
    broadcast use vstd::multiset::group_multiset_axioms;
    let n = columns.len() - 1;
    lemma_multiset_commutative(all_ids(columns.drop_last()), ids_of(columns.last().panes));
    if i == n {
        assert(columns.remove(i) =~= columns.drop_last());
        assert(all_ids(columns.remove(i)).to_multiset().add(ids_of(columns[i].panes).to_multiset())
            =~= all_ids(columns).to_multiset());
    } else {
        let r = columns.remove(i);
        assert(r.drop_last() =~= columns.drop_last().remove(i));
        assert(r.last() == columns.last());
        lemma_all_ids_remove(columns.drop_last(), i);
        lemma_multiset_commutative(all_ids(r.drop_last()), ids_of(r.last().panes));
        assert(all_ids(r).to_multiset().add(ids_of(columns[i].panes).to_multiset()) =~= all_ids(
            columns,
        ).to_multiset());
    }
}

proof fn lemma_restacked_ids(panes: Seq<AcmePaneGeometry>, rows: Seq<crate::geom::Dimension>, y0: int)
    ensures
        ids_of(restacked(panes, rows, y0)) == ids_of(panes),
{
    assert(ids_of(restacked(panes, rows, y0)) =~= ids_of(panes));
}

proof fn lemma_equalize_ids(c: ColumnModel, viewport: Viewport)
    ensures
        equalize_column(c, viewport) matches Ok(c2) ==> ids_of(c2.panes) == ids_of(c.panes) && c2.x == c.x,
{
    if equalize_column(c, viewport) is Ok {
        let c2 = equalize_column(c, viewport)->Ok_0;
        lemma_restacked_ids(c.panes, crate::acme_resize::dims_of(
            crate::acme::equalized_rows(crate::acme::heights_of(c.panes), viewport.rows as int),
            viewport.rows,
        ), viewport.y as int);
    }
}

proof fn lemma_insert_ids(c: ColumnModel, index: int, p: AcmePaneGeometry)
    requires
        0 <= index,
    ensures
        ids_of(insert_into(c, index, p).panes).to_multiset() == ids_of(c.panes).to_multiset().insert(p.pane_id),
        insert_into(c, index, p).x == c.x,
{
    let at = if index <= c.panes.len() { index } else { c.panes.len() as int };
    assert(ids_of(c.panes.insert(at, p)) =~= ids_of(c.panes).insert(at, p.pane_id));
    to_multiset_insert(ids_of(c.panes), at, p.pane_id);
}


proof fn lemma_cancel(m: Multiset<PaneId>, n: Multiset<PaneId>, x: Multiset<PaneId>)
    requires
        m.add(x) == n.add(x),
    ensures
        m == n,
{
    broadcast use vstd::multiset::group_multiset_axioms;
    assert forall|v: PaneId| #[trigger] m.count(v) == n.count(v) by {
        assert(m.add(x).count(v) == m.count(v) + x.count(v));
        assert(n.add(x).count(v) == n.count(v) + x.count(v));
    }
    assert(m =~= n);
}

/// Putting a pane into a column of the columns adds its id once.
proof fn lemma_all_ids_insert(columns: Seq<ColumnModel>, i: int, index: int, p: AcmePaneGeometry)
    requires
        0 <= i < columns.len(),
        0 <= index,
    ensures
        all_ids(columns.update(i, insert_into(columns[i], index, p))).to_multiset()
            == all_ids(columns).to_multiset().insert(p.pane_id),
{
    broadcast use vstd::multiset::group_multiset_axioms;
    let c = insert_into(columns[i], index, p);
    lemma_all_ids_update(columns, i, c);
    lemma_insert_ids(columns[i], index, p);
    let x = ids_of(columns[i].panes).to_multiset();
    assert(all_ids(columns).to_multiset().add(x.insert(p.pane_id)) =~= all_ids(columns).to_multiset().insert(
        p.pane_id,
    ).add(x));
    lemma_cancel(all_ids(columns.update(i, c)).to_multiset(), all_ids(columns).to_multiset().insert(p.pane_id), x);
}

/// Replacing a column by one with the same ids keeps the ids of all.
proof fn lemma_all_ids_same_column(columns: Seq<ColumnModel>, i: int, c: ColumnModel)
    requires
        0 <= i < columns.len(),
        ids_of(c.panes) == ids_of(columns[i].panes),
    ensures
        all_ids(columns.update(i, c)) == all_ids(columns),
{
    assert forall|k: int| 0 <= k < columns.len() implies ids_of(#[trigger] columns.update(i, c)[k].panes) == ids_of(
        columns[k].panes,
    ) by {}
    lemma_all_ids_same(columns.update(i, c), columns);
}

/// A move lays out every pane of the columns once more: whenever it plans anything, the plan
/// holds the same pane ids as the columns, each as many times.
#[verifier::spinoff_prover]
#[verifier::rlimit(60)]
pub proof fn law_moving_keeps_every_pane(
    columns: Seq<ColumnModel>,
    id: PaneId,
    line: int,
    position_column: int,
    viewport: Viewport,
    minimum_rows: int,
)
    ensures
        move_plan(columns, id, line, position_column, viewport, minimum_rows) matches Ok(plan)
            ==> plan.len() == 0 || plan_ids(plan).to_multiset() == all_ids(columns).to_multiset(),
{
    broadcast use vstd::multiset::group_multiset_axioms;
    let r = move_plan(columns, id, line, position_column, viewport, minimum_rows);
    if r is Ok && r->Ok_0.len() > 0 {
        let plan = r->Ok_0;
        let si = column_with_pane(columns, id)->0;
        lemma_column_with_pane_found(columns, id, 0);
        let ti = column_at(columns, position_column)->0;
        lemma_column_at_found(columns, position_column, 0);
        let ins = insert_index_at_line(columns[ti], line);
        if pane_at_line(columns[ti], line) is Some {
            lemma_pane_at_line_found(columns[ti], line, 0);
        }
        assert(ins >= 0);
        let src = columns[si];
        let ids = ids_of(src.panes);
        lemma_index_of(ids, id, 0);
        let pi = index_of(ids, id)->0;
        let moving = src.panes[pi];
        assert(moving.pane_id == id);
        let src2 = with_panes(src, src.panes.remove(pi));
        assert(ids_of(src2.panes) =~= ids.remove(pi));
        to_multiset_remove(ids, pi);
        vstd::seq_lib::to_multiset_contains(ids, id);
        assert(ids.to_multiset().count(id) > 0);
        assert forall|v: PaneId| #[trigger] ids.to_multiset().count(v) == ids_of(src2.panes).to_multiset().insert(id).count(v) by {
            broadcast use vstd::multiset::group_multiset_properties;
            if v == id {
                assert(ids.to_multiset().remove(id).count(id) == ids.to_multiset().count(id) - 1);
            }
        }
        assert(ids.to_multiset() =~= ids_of(src2.panes).to_multiset().insert(id));
        if src2.panes.len() == 0 {
            let rest = columns.remove(si);
            let ti2 = if ti > si { ti - 1 } else { ti };
            lemma_all_ids_remove(columns, si);
            assert(ids_of(src2.panes) =~= Seq::<PaneId>::empty());
            assert forall|v: PaneId| #[trigger] ids_of(src2.panes).to_multiset().count(v) == 0 by {
                vstd::seq_lib::to_multiset_contains(ids_of(src2.panes), v);
            }
            assert(ids_of(src2.panes).to_multiset() =~= Multiset::empty());
            assert(all_ids(rest).to_multiset().insert(id) =~= all_ids(columns).to_multiset());
            let cs = expand_columns(rest, si, src.cols as int, viewport)->Ok_0;
            assert forall|k: int| 0 <= k < cs.len() implies ids_of(#[trigger] cs[k].panes) == ids_of(rest[k].panes) by {}
            lemma_all_ids_same(cs, rest);
            let cs2 = cs.update(ti2, insert_into(cs[ti2], ins, moving));
            lemma_all_ids_insert(cs, ti2, ins, moving);
            let t = equalize_column(cs2[ti2], viewport)->Ok_0;
            lemma_equalize_ids(cs2[ti2], viewport);
            lemma_all_ids_same_column(cs2, ti2, t);
            assert(cs2.update(ti2, t).update(ti2, t) == cs2.update(ti2, t));
            assert(plan == layout_plan(cs2.update(ti2, t), viewport.cols));
            lemma_plan_ids(cs2.update(ti2, t), viewport.cols);
        } else {
            let c1 = columns.update(si, src2);
            lemma_all_ids_update(columns, si, src2);
            assert(all_ids(c1).to_multiset().add(ids.to_multiset()) =~= all_ids(c1).to_multiset().insert(id).add(
                ids_of(src2.panes).to_multiset(),
            ));
            lemma_cancel(all_ids(c1).to_multiset().insert(id), all_ids(columns).to_multiset(), ids_of(src2.panes).to_multiset());
            let cs2 = c1.update(ti, insert_into(c1[ti], ins, moving));
            lemma_all_ids_insert(c1, ti, ins, moving);
            let s = equalize_column(cs2[si], viewport)->Ok_0;
            lemma_equalize_ids(cs2[si], viewport);
            lemma_all_ids_same_column(cs2, si, s);
            let cs3 = cs2.update(si, s);
            let t = equalize_column(cs3[ti], viewport)->Ok_0;
            lemma_equalize_ids(cs3[ti], viewport);
            lemma_all_ids_same_column(cs3, ti, t);
            assert(plan == layout_plan(cs3.update(ti, t), viewport.cols));
            lemma_plan_ids(cs3.update(ti, t), viewport.cols);
        }
    }
}


/// In the plan of the columns, every pane of a column takes that column's left edge.
proof fn lemma_plan_puts_panes_in_their_column(columns: Seq<ColumnModel>, viewport_cols: usize, i: int, pid: PaneId)
    requires
        0 <= i < columns.len(),
        ids_of(columns[i].panes).contains(pid),
    ensures
        exists|k: int|
            0 <= k < layout_plan(columns, viewport_cols).len() && (#[trigger] layout_plan(columns, viewport_cols)[k]).0
                == pid && layout_plan(columns, viewport_cols)[k].1.x == columns[i].x,
    decreases columns.len(),
{
    let n = columns.len() - 1;
    let a = layout_plan(columns.drop_last(), viewport_cols);
    let b = column_plan(columns.last(), viewport_cols);
    let plan = layout_plan(columns, viewport_cols);
    assert(plan == a + b);
    if i < n {
        assert(columns.drop_last()[i] == columns[i]);
        lemma_plan_puts_panes_in_their_column(columns.drop_last(), viewport_cols, i, pid);
        let k = choose|k: int| 0 <= k < a.len() && (#[trigger] a[k]).0 == pid && a[k].1.x == columns[i].x;
        assert(plan[k] == a[k]);
    } else {
        let j = choose|j: int| 0 <= j < ids_of(columns[i].panes).len() && ids_of(columns[i].panes)[j] == pid;
        assert(plan[a.len() + j] == b[j]);
    }
}

/// The columns a move lays out, and the index among them of the column the pane went into,
/// which holds the pane and every pane that was in the column under the drop.
#[verifier::spinoff_prover]
#[verifier::rlimit(60)]
proof fn lemma_moved_columns(
    columns: Seq<ColumnModel>,
    id: PaneId,
    line: int,
    position_column: int,
    viewport: Viewport,
    minimum_rows: int,
) -> (r: (Seq<ColumnModel>, int))
    requires
        move_plan(columns, id, line, position_column, viewport, minimum_rows) is Ok,
        move_plan(columns, id, line, position_column, viewport, minimum_rows)->Ok_0.len() > 0,
    ensures
        move_plan(columns, id, line, position_column, viewport, minimum_rows)->Ok_0 == layout_plan(r.0, viewport.cols),
        0 <= r.1 < r.0.len(),
        ids_of(r.0[r.1].panes).contains(id),
        viewport.y + viewport.rows <= usize::MAX ==> column_tiles(r.0[r.1].panes, viewport),
        ({
            let target = columns[column_at(columns, position_column)->0];
            let ins = insert_index_at_line(target, line);
            &&& 0 <= ins
            &&& ids_of(r.0[r.1].panes) == ids_of(target.panes).insert(
                if ins <= target.panes.len() { ins } else { target.panes.len() as int },
                id,
            )
        }),
        forall|q: PaneId| #[trigger] ids_of(columns[column_at(columns, position_column)->0].panes).contains(q)
            ==> ids_of(r.0[r.1].panes).contains(q),
{
    let plan = move_plan(columns, id, line, position_column, viewport, minimum_rows)->Ok_0;
    let si = column_with_pane(columns, id)->0;
    lemma_column_with_pane_found(columns, id, 0);
    let ti = column_at(columns, position_column)->0;
    lemma_column_at_found(columns, position_column, 0);
    let ins = insert_index_at_line(columns[ti], line);
    if pane_at_line(columns[ti], line) is Some {
        lemma_pane_at_line_found(columns[ti], line, 0);
    }
    let src = columns[si];
    let ids = ids_of(src.panes);
    lemma_index_of(ids, id, 0);
    let pi = index_of(ids, id)->0;
    let moving = src.panes[pi];
    let src2 = with_panes(src, src.panes.remove(pi));
    let target = columns[ti];
    let (fin, ft, base) = if src2.panes.len() == 0 {
        let rest = columns.remove(si);
        let ti2 = if ti > si { ti - 1 } else { ti };
        assert(rest[ti2] == target);
        let cs = expand_columns(rest, si, src.cols as int, viewport)->Ok_0;
        let cs2 = cs.update(ti2, insert_into(cs[ti2], ins, moving));
        let t = equalize_column(cs2[ti2], viewport)->Ok_0;
        lemma_equalize_ids(cs2[ti2], viewport);
        if viewport.y + viewport.rows <= usize::MAX {
            law_equalized_columns_are_tiled(cs2[ti2], viewport);
        }
        (cs2.update(ti2, t), ti2, cs[ti2])
    } else {
        let c1 = columns.update(si, src2);
        let cs2 = c1.update(ti, insert_into(c1[ti], ins, moving));
        let s = equalize_column(cs2[si], viewport)->Ok_0;
        let cs3 = cs2.update(si, s);
        let t = equalize_column(cs3[ti], viewport)->Ok_0;
        lemma_equalize_ids(cs3[ti], viewport);
        if viewport.y + viewport.rows <= usize::MAX {
            law_equalized_columns_are_tiled(cs3[ti], viewport);
        }
        (cs3.update(ti, t), ti, c1[ti])
    };
    assert(ids_of(base.panes) == ids_of(target.panes));
    let at = if ins <= base.panes.len() { ins } else { base.panes.len() as int };
    assert(ids_of(fin[ft].panes) == ids_of(base.panes.insert(at, moving)));
    assert(ids_of(base.panes.insert(at, moving)) =~= ids_of(base.panes).insert(at, id));
    assert(ids_of(fin[ft].panes)[at] == id);
    assert(base.panes.len() == target.panes.len());
    assert(ids_of(fin[ft].panes) == ids_of(target.panes).insert(at, id));
    assert forall|q: PaneId| #[trigger] ids_of(target.panes).contains(q) implies ids_of(fin[ft].panes).contains(q) by {
        let j = choose|j: int| 0 <= j < ids_of(target.panes).len() && ids_of(target.panes)[j] == q;
        let j2 = if j < at { j } else { j + 1 };
        assert(ids_of(fin[ft].panes)[j2] == q);
    }
    (fin, ft)
}

/// A move puts the pane into the column under the drop: in the plan, the moved pane takes the
/// same left edge as every pane that was in that column.
pub proof fn law_moving_puts_the_pane_in_the_target_column(
    columns: Seq<ColumnModel>,
    id: PaneId,
    line: int,
    position_column: int,
    viewport: Viewport,
    minimum_rows: int,
)
    ensures
        move_plan(columns, id, line, position_column, viewport, minimum_rows) matches Ok(plan) ==> plan.len() == 0
            || (exists|k: int| 0 <= k < plan.len() && (#[trigger] plan[k]).0 == id)
            && forall|q: PaneId| #[trigger] ids_of(columns[column_at(columns, position_column)->0].panes).contains(q)
                ==> exists|k: int, k2: int|
                    0 <= k < plan.len() && 0 <= k2 < plan.len() && (#[trigger] plan[k]).0 == id && (#[trigger] plan[k2]).0 == q
                    && plan[k].1.x == plan[k2].1.x,
{
    let r = move_plan(columns, id, line, position_column, viewport, minimum_rows);
    if r is Ok && r->Ok_0.len() > 0 {
        let plan = r->Ok_0;
        let (fin, ft) = lemma_moved_columns(columns, id, line, position_column, viewport, minimum_rows);
        lemma_plan_puts_panes_in_their_column(fin, viewport.cols, ft, id);
        let k = choose|k: int| 0 <= k < plan.len() && (#[trigger] plan[k]).0 == id && plan[k].1.x == fin[ft].x;
        assert forall|q: PaneId| #[trigger] ids_of(columns[column_at(columns, position_column)->0].panes).contains(q)
            implies exists|k: int, k2: int|
                0 <= k < plan.len() && 0 <= k2 < plan.len() && (#[trigger] plan[k]).0 == id && (#[trigger] plan[k2]).0 == q
                && plan[k].1.x == plan[k2].1.x by {
            lemma_plan_puts_panes_in_their_column(fin, viewport.cols, ft, q);
            let k2 = choose|k2: int| 0 <= k2 < plan.len() && (#[trigger] plan[k2]).0 == q && plan[k2].1.x == fin[ft].x;
            assert(plan[k].0 == id && plan[k2].0 == q);
        }
    }
}


/// A move lays out columns among which the column the pane went into holds it and fills the
/// viewport's height from its top, pane after pane.
pub proof fn law_moving_fills_the_target_column(
    columns: Seq<ColumnModel>,
    id: PaneId,
    line: int,
    position_column: int,
    viewport: Viewport,
    minimum_rows: int,
)
    requires
        viewport.y + viewport.rows <= usize::MAX,
    ensures
        move_plan(columns, id, line, position_column, viewport, minimum_rows) matches Ok(plan) ==> plan.len() == 0
            || exists|laid_out: Seq<ColumnModel>, t: int|
                plan == layout_plan(laid_out, viewport.cols) && 0 <= t < laid_out.len()
                    && ids_of((#[trigger] laid_out[t]).panes).contains(id) && column_tiles(laid_out[t].panes, viewport),
{
    let r = move_plan(columns, id, line, position_column, viewport, minimum_rows);
    if r is Ok && r->Ok_0.len() > 0 {
        let (fin, ft) = lemma_moved_columns(columns, id, line, position_column, viewport, minimum_rows);
        assert(fin[ft] == fin[ft]);
    }
}


/// The panes of each column appear together in the plan of the columns, in their order.
proof fn lemma_column_block(columns: Seq<ColumnModel>, viewport_cols: usize, i: int) -> (off: int)
    requires
        0 <= i < columns.len(),
    ensures
        0 <= off,
        off + columns[i].panes.len() <= layout_plan(columns, viewport_cols).len(),
        forall|j: int| 0 <= j < columns[i].panes.len() ==> (#[trigger] layout_plan(columns, viewport_cols)[off + j]).0
            == ids_of(columns[i].panes)[j],
    decreases columns.len(),
{
    let n = columns.len() - 1;
    let a = layout_plan(columns.drop_last(), viewport_cols);
    let b = column_plan(columns.last(), viewport_cols);
    let plan = layout_plan(columns, viewport_cols);
    assert(plan == a + b);
    if i < n {
        assert(columns.drop_last()[i] == columns[i]);
        let off = lemma_column_block(columns.drop_last(), viewport_cols, i);
        assert forall|j: int| 0 <= j < columns[i].panes.len() implies (#[trigger] plan[off + j]).0 == ids_of(
            columns[i].panes,
        )[j] by {
            assert(plan[off + j] == a[off + j]);
        }
        off
    } else {
        assert forall|j: int| 0 <= j < columns[i].panes.len() implies (#[trigger] plan[a.len() + j]).0 == ids_of(
            columns[i].panes,
        )[j] by {
            assert(plan[a.len() + j] == b[j]);
        }
        a.len() as int
    }
}

/// Whether pane `k` of a column covers display line `line`.
pub open spec fn pane_holds_line(c: ColumnModel, k: int, line: int) -> bool {
    c.panes[k].geom.y <= line < c.panes[k].geom.y + c.panes[k].geom.rows.cells()
}

proof fn lemma_pane_at_line_is(c: ColumnModel, line: int, i: int, k: int)
    requires
        0 <= i <= k < c.panes.len(),
        pane_holds_line(c, k, line),
        forall|m: int| i <= m < k ==> !#[trigger] pane_holds_line(c, m, line),
    ensures
        crate::acme_lookup::pane_at_line_from(c, line, i) == Some(k),
    decreases k - i,
{
    if i < k {
        assert(!pane_holds_line(c, i, line));
        lemma_pane_at_line_is(c, line, i + 1, k);
    }
}

proof fn lemma_pane_at_line_none(c: ColumnModel, line: int, i: int)
    requires
        0 <= i <= c.panes.len(),
        forall|m: int| i <= m < c.panes.len() ==> !#[trigger] pane_holds_line(c, m, line),
    ensures
        crate::acme_lookup::pane_at_line_from(c, line, i) is None,
    decreases c.panes.len() - i,
{
    if i < c.panes.len() {
        assert(!pane_holds_line(c, i, line));
        lemma_pane_at_line_none(c, line, i + 1);
    }
}

/// A pane dropped on display line `line` of another column goes right below the (first) pane
/// of that column that covers the line: in the plan it comes right after that pane. When no
/// pane of the column covers the line, it goes last, right after the column's last pane.
pub proof fn law_a_dropped_pane_goes_below_the_pane_at_the_line(
    columns: Seq<ColumnModel>,
    id: PaneId,
    line: int,
    position_column: int,
    viewport: Viewport,
    minimum_rows: int,
    k: int,
)
    ensures
        move_plan(columns, id, line, position_column, viewport, minimum_rows) matches Ok(plan) ==> plan.len() == 0 || ({
            let target = columns[column_at(columns, position_column)->0];
            &&& (0 <= k < target.panes.len() && pane_holds_line(target, k, line)
                && (forall|m: int| 0 <= m < k ==> !#[trigger] pane_holds_line(target, m, line))
                ==> exists|j: int| 0 <= j && j + 1 < plan.len() && (#[trigger] plan[j]).0 == target.panes[k].pane_id
                    && plan[j + 1].0 == id)
            &&& (target.panes.len() > 0 && (forall|m: int| 0 <= m < target.panes.len() ==> !#[trigger] pane_holds_line(target, m, line))
                ==> exists|j: int| 0 <= j && j + 1 < plan.len() && (#[trigger] plan[j]).0 == target.panes.last().pane_id
                    && plan[j + 1].0 == id)
        }),
{
    let r = move_plan(columns, id, line, position_column, viewport, minimum_rows);
    if r is Ok && r->Ok_0.len() > 0 {
        let plan = r->Ok_0;
        let (fin, ft) = lemma_moved_columns(columns, id, line, position_column, viewport, minimum_rows);
        let target = columns[column_at(columns, position_column)->0];
        let n = target.panes.len() as int;
        let off = lemma_column_block(fin, viewport.cols, ft);
        let ids = ids_of(fin[ft].panes);
        if 0 <= k < n && pane_holds_line(target, k, line) && (forall|m: int| 0 <= m < k ==> !#[trigger] pane_holds_line(target, m, line)) {
            lemma_pane_at_line_is(target, line, 0, k);
            assert(ids == ids_of(target.panes).insert(k + 1, id));
            assert(plan[off + k].0 == ids[k]);
            assert(plan[off + (k + 1)].0 == ids[k + 1]);
            assert(off + k + 1 == off + (k + 1));
        }
        if n > 0 && (forall|m: int| 0 <= m < n ==> !#[trigger] pane_holds_line(target, m, line)) {
            lemma_pane_at_line_none(target, line, 0);
            assert(ids == ids_of(target.panes).insert(n, id));
            assert(plan[off + (n - 1)].0 == ids[n - 1]);
            assert(off + n - 1 == off + (n - 1));
            assert(plan[off + n].0 == ids[n]);
        }
    }
}


/// A pane dragged within its column from line `start_line` and released on another pane of the
/// column (the first that covers `release_line`) ends up right below that pane when dragged
/// down, and right above it when dragged up: in the plan it comes right after, or right before,
/// that pane.
#[verifier::spinoff_prover]
#[verifier::rlimit(60)]
pub proof fn law_a_reordered_pane_lands_beside_the_pane_released_on(
    columns: Seq<ColumnModel>,
    id: PaneId,
    start_line: int,
    release_line: int,
    release_column: int,
    viewport: Viewport,
    k: int,
)
    ensures
        reorder_plan(columns, id, start_line, release_line, release_column, viewport) matches Ok(plan) ==> plan.len() == 0 || ({
            let c = columns[column_with_pane(columns, id)->0];
            0 <= k < c.panes.len() && pane_holds_line(c, k, release_line)
                && (forall|m: int| 0 <= m < k ==> !#[trigger] pane_holds_line(c, m, release_line)) ==> {
                &&& release_line > start_line ==> exists|j: int| 0 <= j && j + 1 < plan.len()
                    && (#[trigger] plan[j]).0 == c.panes[k].pane_id && plan[j + 1].0 == id
                &&& release_line < start_line ==> exists|j: int| 0 <= j && j + 1 < plan.len()
                    && (#[trigger] plan[j]).0 == id && plan[j + 1].0 == c.panes[k].pane_id
            }
        }),
{
    let r = reorder_plan(columns, id, start_line, release_line, release_column, viewport);
    if r is Ok && r->Ok_0.len() > 0 {
        let plan = r->Ok_0;
        let si = column_with_pane(columns, id)->0;
        lemma_column_with_pane_found(columns, id, 0);
        let c = columns[si];
        if 0 <= k < c.panes.len() && pane_holds_line(c, k, release_line)
            && (forall|m: int| 0 <= m < k ==> !#[trigger] pane_holds_line(c, m, release_line)) {
            lemma_pane_at_line_is(c, release_line, 0, k);
            let tid = c.panes[k].pane_id;
            assert(tid != id);
            assert(ids_of(c.panes)[k] == tid);
            let down = release_line > start_line;
            let reordered = reordered_beside(c.panes, id, tid, down);
            law_reordering_places_the_pane_beside_the_target(c.panes, id, tid, down);
            let c2 = stack_column(with_panes(c, reordered), viewport)->Ok_0;
            let laid = columns.update(si, c2);
            assert(plan == layout_plan(laid, viewport.cols));
            lemma_restacked_ids(reordered, rows_of(reordered), viewport.y as int);
            let off = lemma_column_block(laid, viewport.cols, si);
            let kk = choose|kk: int| #![trigger reordered[kk]] 0 <= kk < reordered.len() && reordered[kk].pane_id == id
                && (down ==> 0 < kk && reordered[kk - 1].pane_id == tid)
                && (!down ==> kk + 1 < reordered.len() && reordered[kk + 1].pane_id == tid)
                && reordered[kk] == c.panes[index_of(ids_of(c.panes), id)->0]
                && reordered.remove(kk) == c.panes.remove(index_of(ids_of(c.panes), id)->0);
            assert(ids_of(laid[si].panes) == ids_of(reordered));
            if down {
                assert(plan[off + (kk - 1)].0 == ids_of(reordered)[kk - 1]);
                assert(plan[off + kk].0 == ids_of(reordered)[kk]);
                assert(off + (kk - 1) + 1 == off + kk);
            } else {
                assert(plan[off + kk].0 == ids_of(reordered)[kk]);
                assert(plan[off + (kk + 1)].0 == ids_of(reordered)[kk + 1]);
                assert(off + kk + 1 == off + (kk + 1));
            }
        }
    }
}

} // verus!
