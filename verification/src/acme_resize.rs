use vstd::prelude::*;
use crate::geom::{Dimension, Viewport};
use crate::input::{Direction, Resize, ResizeStrategy};
use crate::acme::{
    AcmeColumn, ACME_COLLAPSED_PANE_ROWS, heights_of, lemma_sum_nonneg, rows_dimension,
    acme_rows_dimension, sum,
};
use crate::acme_plan::{AcmeError, cells_of, restacked, restack};

verus! {

/// The indices `hi - 1` down to `0`.
pub open spec fn desc_range(hi: int) -> Seq<int> {
    Seq::new(hi as nat, |i: int| hi - 1 - i)
}

/// The indices `lo` up to `hi - 1`.
pub open spec fn asc_range(lo: int, hi: int) -> Seq<int> {
    Seq::new(if hi >= lo { (hi - lo) as nat } else { 0 }, |i: int| lo + i)
}

pub open spec fn min_int(a: int, b: int) -> int {
    if a <= b { a } else { b }
}

/// Rows a donor can give: all but its title line.
pub open spec fn spare_rows(rows: int) -> int {
    if rows >= ACME_COLLAPSED_PANE_ROWS { rows - ACME_COLLAPSED_PANE_ROWS } else { 0 }
}

/// Moves up to `remaining` rows to the pane at `r` from the donors, in their order, each
/// keeping its title line; says whether any row moved.
pub open spec fn transfer(h: Seq<int>, donors: Seq<int>, r: int, remaining: int) -> (Seq<int>, bool)
    decreases donors.len(),
{
    if donors.len() == 0 {
        (h, false)
    } else {
        let d = donors[0];
        let rest = donors.drop_first();
        if d == r || d < 0 || d >= h.len() {
            transfer(h, rest, r, remaining)
        } else {
            let t = min_int(remaining, spare_rows(h[d]));
            if t <= 0 {
                transfer(h, rest, r, remaining)
            } else {
                let h2 = h.update(d, h[d] - t).update(r, h[r] + t);
                if remaining - t == 0 {
                    (h2, true)
                } else {
                    (transfer(h2, rest, r, remaining - t).0, true)
                }
            }
        }
    }
}

/// Row transfer between the panes of a column: nothing moves when the recipient is not there.
pub open spec fn transfer_rows(h: Seq<int>, donors: Seq<int>, r: int, delta: int) -> (Seq<int>, bool) {
    if r < 0 || r >= h.len() {
        (h, false)
    } else {
        transfer(h, donors, r, delta)
    }
}

pub proof fn lemma_sum_update(h: Seq<int>, i: int, v: int)
    requires
        0 <= i < h.len(),
    ensures
        sum(h.update(i, v)) == sum(h) - h[i] + v,
    decreases h.len(),
{
    if i < h.len() - 1 {
        assert(h.update(i, v).drop_last() =~= h.drop_last().update(i, v));
        lemma_sum_update(h.drop_last(), i, v);
    } else {
        assert(h.update(i, v).drop_last() =~= h.drop_last());
    }
}

pub proof fn lemma_two_le_sum(h: Seq<int>, a: int, b: int)
    requires
        0 <= a < h.len(),
        0 <= b < h.len(),
        a != b,
        forall|k: int| 0 <= k < h.len() ==> h[k] >= 0,
    ensures
        h[a] + h[b] <= sum(h),
{
    lemma_sum_update(h, a, 0);
    let h1 = h.update(a, 0);
    lemma_sum_update(h1, b, 0);
    lemma_sum_nonneg(h1.update(b, 0));
}

/// Moving rows between panes neither makes nor loses a row, and no pane that showed its title
/// line loses it.
pub proof fn lemma_transfer_keeps_total(h: Seq<int>, donors: Seq<int>, r: int, remaining: int)
    requires
        0 <= r < h.len(),
        forall|k: int| 0 <= k < h.len() ==> h[k] >= 0,
    ensures
        transfer(h, donors, r, remaining).0.len() == h.len(),
        sum(transfer(h, donors, r, remaining).0) == sum(h),
        forall|k: int| 0 <= k < h.len() ==> #[trigger] transfer(h, donors, r, remaining).0[k] >= 0,
        forall|k: int|
            0 <= k < h.len() && h[k] >= ACME_COLLAPSED_PANE_ROWS ==> #[trigger] transfer(h, donors, r, remaining).0[k]
                >= ACME_COLLAPSED_PANE_ROWS,
    decreases donors.len(),
{
    if donors.len() > 0 {
        let d = donors[0];
        let rest = donors.drop_first();
        if d == r || d < 0 || d >= h.len() {
            lemma_transfer_keeps_total(h, rest, r, remaining);
        } else {
            let t = min_int(remaining, spare_rows(h[d]));
            if t <= 0 {
                lemma_transfer_keeps_total(h, rest, r, remaining);
            } else {
                let h1 = h.update(d, h[d] - t);
                let h2 = h1.update(r, h[r] + t);
                lemma_sum_update(h, d, h[d] - t);
                lemma_sum_update(h1, r, h[r] + t);
                if remaining - t != 0 {
                    lemma_transfer_keeps_total(h2, rest, r, remaining - t);
                }
            }
        }
    }
}

/// The donors and the recipient of a resize of the pane at `i` of a column of `count` panes;
/// none when the resize cannot move rows.
pub open spec fn resize_donors(strategy: ResizeStrategy, i: int, count: int) -> Option<(Seq<int>, int)> {
    match (strategy.resize, strategy.direction) {
        (Resize::Increase, Some(Direction::Up)) => Some((desc_range(i), i)),
        (Resize::Decrease, Some(Direction::Up)) => if i == 0 {
            None
        } else {
            Some((asc_range(i, count), i - 1))
        },
        (Resize::Increase, Some(Direction::Down)) => Some((asc_range(i + 1, count), i)),
        (Resize::Decrease, Some(Direction::Down)) => if i + 1 >= count {
            None
        } else {
            Some((desc_range(i + 1), i + 1))
        },
        _ => None,
    }
}

/// The new heights of a column after resizing its pane at `i` by `delta` rows; none when no
/// row moves.
pub open spec fn resized_heights(h: Seq<int>, i: int, strategy: ResizeStrategy, delta: int) -> Option<Seq<int>> {
    if i >= h.len() {
        None
    } else {
        match resize_donors(strategy, i, h.len() as int) {
            None => None,
            Some((donors, r)) => {
                let (h2, changed) = transfer_rows(h, donors, r, delta);
                if changed {
                    Some(h2)
                } else {
                    None
                }
            },
        }
    }
}

/// Heights as the dimensions an Acme column gives its panes.
pub open spec fn dims_of(h: Seq<int>, viewport_rows: usize) -> Seq<Dimension> {
    h.map_values(|x: int| rows_dimension(x as usize, viewport_rows))
}

pub proof fn lemma_cells_of_dims(h: Seq<int>, viewport_rows: usize)
    requires
        forall|k: int| 0 <= k < h.len() ==> 0 <= #[trigger] h[k] <= usize::MAX,
    ensures
        cells_of(dims_of(h, viewport_rows)) == h,
{
    assert(cells_of(dims_of(h, viewport_rows)) =~= h);
}

fn desc_indices(hi: usize) -> (v: Vec<usize>)
    ensures
        v@.len() == hi,
        forall|k: int| 0 <= k < hi ==> v@[k] as int == #[trigger] desc_range(hi as int)[k],
{
    let mut v: Vec<usize> = Vec::new();
    let mut i: usize = hi;
    while i > 0
        invariant
            i <= hi,
            v@.len() == hi - i,
            forall|k: int| 0 <= k < hi - i ==> v@[k] as int == #[trigger] desc_range(hi as int)[k],
        decreases i,
    {
        i -= 1;
        v.push(i);
    }
    v
}

fn asc_indices(lo: usize, hi: usize) -> (v: Vec<usize>)
    ensures
        v@.len() == asc_range(lo as int, hi as int).len(),
        forall|k: int| 0 <= k < v@.len() ==> v@[k] as int == #[trigger] asc_range(lo as int, hi as int)[k],
{
    let mut v: Vec<usize> = Vec::new();
    if hi <= lo {
        return v;
    }
    let mut i: usize = lo;
    while i < hi
        invariant
            lo <= i <= hi,
            v@.len() == i - lo,
            forall|k: int| 0 <= k < v@.len() ==> v@[k] as int == #[trigger] asc_range(lo as int, hi as int)[k],
        decreases hi - i,
    {
        v.push(i);
        i += 1;
    }
    v
}

/// Moves up to `row_delta` rows to the pane at `recipient_index` from the donors, in their
/// order; says whether any row moved.
fn transfer_rows_between_acme_panes(
    row_heights: &mut Vec<usize>,
    donor_indices: &Vec<usize>,
    recipient_index: usize,
    row_delta: usize,
) -> (changed: bool)
    requires
        sum(old(row_heights)@.map_values(|x: usize| x as int)) <= usize::MAX,
    ensures
        final(row_heights)@.len() == old(row_heights)@.len(),
        (final(row_heights)@.map_values(|x: usize| x as int), changed) == transfer_rows(
            old(row_heights)@.map_values(|x: usize| x as int),
            donor_indices@.map_values(|x: usize| x as int),
            recipient_index as int,
            row_delta as int,
        ),
{
    let ghost h0 = row_heights@.map_values(|x: usize| x as int);
    let ghost donors = donor_indices@.map_values(|x: usize| x as int);
    if recipient_index >= row_heights.len() {
        return false;
    }
    let mut remaining = row_delta;
    let mut changed = false;
    let mut k: usize = 0;
    let mut finished = false;
    assert(donors.subrange(0, donors.len() as int) =~= donors);
    while k < donor_indices.len() && !finished
        invariant
            0 <= recipient_index < row_heights@.len(),
            row_heights@.len() == h0.len(),
            donors == donor_indices@.map_values(|x: usize| x as int),
            0 <= k <= donors.len(),
            sum(row_heights@.map_values(|x: usize| x as int)) == sum(h0),
            sum(h0) <= usize::MAX,
            finished ==> changed,
            finished ==> transfer(h0, donors, recipient_index as int, row_delta as int) == (row_heights@.map_values(|x: usize| x as int), true),
            !finished ==> transfer(h0, donors, recipient_index as int, row_delta as int) == ({
                let tail = transfer(
                    row_heights@.map_values(|x: usize| x as int),
                    donors.subrange(k as int, donors.len() as int),
                    recipient_index as int,
                    remaining as int,
                );
                (tail.0, changed || tail.1)
            }),
        decreases donors.len() - k,
    {
        let ghost h = row_heights@.map_values(|x: usize| x as int);
        let ghost tail_donors = donors.subrange(k as int, donors.len() as int);
        assert(tail_donors[0] == donor_indices@[k as int] as int);
        assert(tail_donors.drop_first() =~= donors.subrange(k + 1, donors.len() as int));
        let donor_index = donor_indices[k];
        let ghost remaining_before = remaining;
        let ghost changed_before = changed;
        if donor_index == recipient_index || donor_index >= row_heights.len() {
            k += 1;
        } else {
            let spare = row_heights[donor_index].saturating_sub(ACME_COLLAPSED_PANE_ROWS);
            let rows_to_transfer = if remaining <= spare { remaining } else { spare };
            if rows_to_transfer == 0 {
                k += 1;
            } else {
                proof {
                    assert forall|j: int| 0 <= j < h.len() implies h[j] >= 0 by {}
                    lemma_two_le_sum(h, donor_index as int, recipient_index as int);
                }
                let donor_rows = row_heights[donor_index] - rows_to_transfer;
                row_heights.set(donor_index, donor_rows);
                let recipient_rows = row_heights[recipient_index] + rows_to_transfer;
                row_heights.set(recipient_index, recipient_rows);
                proof {
                    let h1 = h.update(donor_index as int, h[donor_index as int] - rows_to_transfer);
                    let h2 = h1.update(recipient_index as int, h[recipient_index as int] + rows_to_transfer);
                    lemma_sum_update(h, donor_index as int, h[donor_index as int] - rows_to_transfer);
                    lemma_sum_update(h1, recipient_index as int, h[recipient_index as int] + rows_to_transfer);
                    assert(row_heights@.map_values(|x: usize| x as int) =~= h2);
                }
                remaining = remaining - rows_to_transfer;
                changed = true;
                k += 1;
                proof {
                    let h2 = row_heights@.map_values(|x: usize| x as int);
                    assert(min_int(remaining_before as int, spare_rows(h[donor_index as int])) == rows_to_transfer);
                    assert(h.update(donor_index as int, h[donor_index as int] - rows_to_transfer).update(
                        recipient_index as int, h[recipient_index as int] + rows_to_transfer) =~= h2);
                    if remaining == 0 {
                        assert(transfer(h, tail_donors, recipient_index as int, remaining_before as int) == (h2, true));
                    } else {
                        assert(transfer(h, tail_donors, recipient_index as int, remaining_before as int)
                            == (transfer(h2, donors.subrange(k as int, donors.len() as int), recipient_index as int, remaining as int).0, true));
                    }
                }
                if remaining == 0 {
                    finished = true;
                }
            }
        }
    }
    proof {
        if !finished {
            let rest = donors.subrange(k as int, donors.len() as int);
            assert(rest.len() == 0);
            assert(transfer(row_heights@.map_values(|x: usize| x as int), rest, recipient_index as int, remaining as int)
                == (row_heights@.map_values(|x: usize| x as int), false));
        }
        assert((row_heights@.map_values(|x: usize| x as int), changed) == transfer(h0, donors, recipient_index as int, row_delta as int));
        assert(h0 == old(row_heights)@.map_values(|x: usize| x as int));
    }
    changed
}

/// Resizing the pane at `pane_index` of a column: the rows move between its panes, which are
/// then laid out from the viewport's top. `Ok(false)` when no row moved, and the column is left
/// as it was; an error when the new heights do not fill the viewport's height.
pub fn resize_acme_column_pane(
    column: &mut AcmeColumn,
    pane_index: usize,
    strategy: &ResizeStrategy,
    row_delta: usize,
    viewport: Viewport,
) -> (r: Result<bool, AcmeError>)
    requires
        viewport.y + sum(heights_of(old(column).pane_geometries@)) <= usize::MAX,
        viewport.y + viewport.rows <= usize::MAX,
    ensures
        final(column).x == old(column).x,
        final(column).cols == old(column).cols,
        match resized_heights(heights_of(old(column).pane_geometries@), pane_index as int, *strategy, row_delta as int) {
            None => r == Ok::<bool, AcmeError>(false) && final(column).pane_geometries@ == old(column).pane_geometries@,
            Some(h) => {
                &&& final(column).pane_geometries@ == restacked(old(column).pane_geometries@, dims_of(h, viewport.rows), viewport.y as int)
                &&& (sum(h) == viewport.rows ==> r == Ok::<bool, AcmeError>(true))
                &&& (sum(h) != viewport.rows ==> r == Err::<bool, AcmeError>(AcmeError::ColumnDoesNotFillHeight))
            },
        },
{
    let ghost panes0 = column.pane_geometries@;
    let mut row_heights = column.row_heights();
    let ghost h0 = row_heights@.map_values(|x: usize| x as int);
    assert(h0 =~= heights_of(panes0));
    if pane_index >= row_heights.len() {
        return Ok(false);
    }
    let pane_count = row_heights.len();
    let changed = match (strategy.resize, strategy.direction) {
        (Resize::Increase, Some(Direction::Up)) => {
            let donors = desc_indices(pane_index);
            assert(donors@.map_values(|x: usize| x as int) =~= desc_range(pane_index as int));
            transfer_rows_between_acme_panes(&mut row_heights, &donors, pane_index, row_delta)
        },
        (Resize::Decrease, Some(Direction::Up)) => {
            if pane_index == 0 {
                return Ok(false);
            }
            let donors = asc_indices(pane_index, pane_count);
            assert(donors@.map_values(|x: usize| x as int) =~= asc_range(pane_index as int, pane_count as int));
            transfer_rows_between_acme_panes(&mut row_heights, &donors, pane_index - 1, row_delta)
        },
        (Resize::Increase, Some(Direction::Down)) => {
            let donors = asc_indices(pane_index + 1, pane_count);
            assert(donors@.map_values(|x: usize| x as int) =~= asc_range(pane_index + 1, pane_count as int));
            transfer_rows_between_acme_panes(&mut row_heights, &donors, pane_index, row_delta)
        },
        (Resize::Decrease, Some(Direction::Down)) => {
            let recipient_index = pane_index + 1;
            if recipient_index >= pane_count {
                return Ok(false);
            }
            let donors = desc_indices(pane_index + 1);
            assert(donors@.map_values(|x: usize| x as int) =~= desc_range(pane_index + 1));
            transfer_rows_between_acme_panes(&mut row_heights, &donors, recipient_index, row_delta)
        },
        _ => false,
    };
    if !changed {
        return Ok(false);
    }
    let ghost h = row_heights@.map_values(|x: usize| x as int);
    proof {
        let (donors, rr) = resize_donors(*strategy, pane_index as int, pane_count as int)->0;
        lemma_transfer_keeps_total(h0, donors, rr, row_delta as int);
        assert(sum(h) == sum(h0));
    }
    let mut dims: Vec<Dimension> = Vec::new();
    let mut i: usize = 0;
    while i < row_heights.len()
        invariant
            i <= row_heights@.len(),
            h == row_heights@.map_values(|x: usize| x as int),
            dims@ == dims_of(h, viewport.rows).take(i as int),
        decreases row_heights@.len() - i,
    {
        dims.push(acme_rows_dimension(row_heights[i], viewport.rows));
        i += 1;
        assert(dims@ =~= dims_of(h, viewport.rows).take(i as int));
    }
    assert(dims@ =~= dims_of(h, viewport.rows));
    proof {
        lemma_cells_of_dims(h, viewport.rows);
    }
    let end = restack(&mut column.pane_geometries, &dims, viewport.y);
    if end != viewport.y + viewport.rows {
        return Err(AcmeError::ColumnDoesNotFillHeight);
    }
    Ok(true)
}

} // verus!
