use zellij_server::acme::{
    equalized_acme_row_heights, equalized_lengths, AcmeColumn, AcmePaneGeometry, AcmePaneRowsSnapshot,
};
use zellij_server::acme_layout::{
    acme_geometries_after_moving_pane_to_position, acme_geometries_after_removing_pane,
    acme_geometries_after_reordering_pane,
};
use zellij_server::acme_lookup::{acme_focus_target_after_removing_pane, acme_pane_is_maximized};
use zellij_server::acme_plan::{
    acme_geometries_after_maximizing_pane, acme_geometries_after_minimizing_pane,
    acme_geometries_after_restoring_pane_rows, AcmeError,
};
use zellij_server::acme_resize::resize_acme_column_pane;
use zellij_server::acme_titles::{
    acme_own_line_title_boundary_segments, acme_panes_before_own_line_title, acme_title_pane_ids,
};
use zellij_server::geom::{Dimension, PaneGeom, PaneId, Viewport};
use zellij_server::input::{Direction, Resize, ResizeStrategy};

fn pane(id: u32, x: usize, y: usize, cols: usize, rows: usize) -> AcmePaneGeometry {
    AcmePaneGeometry {
        pane_id: PaneId::Terminal(id),
        geom: PaneGeom { x, y, cols: Dimension::fixed(cols), rows: Dimension::fixed(rows), stacked: None },
    }
}

fn column(x: usize, cols: usize, panes: Vec<AcmePaneGeometry>) -> AcmeColumn {
    AcmeColumn { x, cols, pane_geometries: panes }
}

fn viewport() -> Viewport {
    Viewport { x: 0, y: 0, rows: 12, cols: 40 }
}

fn rows_of(plan: &[(PaneId, PaneGeom)]) -> Vec<(PaneId, usize, usize)> {
    plan.iter().map(|(id, g)| (*id, g.y, g.rows.as_usize())).collect()
}

#[test]
fn acme_title_boundary_segments_include_column_boundary_edges() {
    let columns = vec![AcmeColumn {
        x: 10,
        cols: 20,
        pane_geometries: vec![
            AcmePaneGeometry {
                pane_id: PaneId::Terminal(1),
                geom: PaneGeom { x: 10, y: 0, cols: Dimension::fixed(20), rows: Dimension::fixed(5), stacked: None },
            },
            AcmePaneGeometry {
                pane_id: PaneId::Terminal(2),
                geom: PaneGeom { x: 10, y: 5, cols: Dimension::fixed(20), rows: Dimension::fixed(5), stacked: None },
            },
        ],
    }];

    assert_eq!(acme_own_line_title_boundary_segments(&columns), vec![(9, 4, 21)]);
}

#[test]
fn equalized_lengths_share_the_total_with_the_longer_ones_first() {
    assert_eq!(equalized_lengths(10, 3), vec![4, 3, 3]);
    assert_eq!(equalized_lengths(11, 3), vec![4, 4, 3]);
    assert_eq!(equalized_lengths(5, 0), Vec::<usize>::new());
    assert_eq!(equalized_lengths(2, 4), vec![1, 1, 0, 0]);
    let lengths = equalized_lengths(97, 7);
    assert_eq!(lengths.iter().sum::<usize>(), 97);
    assert!(lengths.iter().max().unwrap() - lengths.iter().min().unwrap() <= 1);
}

#[test]
fn equalized_row_heights_keep_collapsed_panes_collapsed() {
    assert_eq!(equalized_acme_row_heights(&[1, 5, 6], 12), vec![1, 6, 5]);
    assert_eq!(equalized_acme_row_heights(&[1, 1], 7), vec![4, 3]);
}

#[test]
fn maximizing_collapses_the_other_panes_to_their_titles() {
    let columns = vec![column(0, 40, vec![pane(1, 0, 0, 40, 4), pane(2, 0, 4, 40, 4), pane(3, 0, 8, 40, 4)])];
    let plan = acme_geometries_after_maximizing_pane(&columns, PaneId::Terminal(2), viewport()).unwrap();
    assert_eq!(
        rows_of(&plan),
        vec![(PaneId::Terminal(1), 0, 1), (PaneId::Terminal(2), 1, 10), (PaneId::Terminal(3), 11, 1)]
    );
    assert_eq!(plan[1].1.rows, Dimension::Percent { inner: 10, full: 12 });
    assert_eq!(
        acme_geometries_after_maximizing_pane(&columns, PaneId::Terminal(9), viewport()),
        Err(AcmeError::FocusedPaneNotInAcmeColumn)
    );
    let tiny = Viewport { rows: 2, ..viewport() };
    assert_eq!(
        acme_geometries_after_maximizing_pane(&columns, PaneId::Terminal(2), tiny),
        Err(AcmeError::NotEnoughRoomToMaximize)
    );
}

#[test]
fn a_maximized_pane_is_recognised() {
    let maximized = column(0, 40, vec![pane(1, 0, 0, 40, 1), pane(2, 0, 1, 40, 11)]);
    assert!(acme_pane_is_maximized(&maximized, PaneId::Terminal(2)));
    assert!(!acme_pane_is_maximized(&maximized, PaneId::Terminal(1)));
    let alone = column(0, 40, vec![pane(1, 0, 0, 40, 12)]);
    assert!(!acme_pane_is_maximized(&alone, PaneId::Terminal(1)));
}

#[test]
fn minimizing_shares_the_rows_among_the_others_and_names_the_next_focus() {
    let columns = vec![column(0, 40, vec![pane(1, 0, 0, 40, 4), pane(2, 0, 4, 40, 4), pane(3, 0, 8, 40, 4)])];
    let (plan, focus) = acme_geometries_after_minimizing_pane(&columns, PaneId::Terminal(2), viewport()).unwrap();
    assert_eq!(
        rows_of(&plan),
        vec![(PaneId::Terminal(1), 0, 6), (PaneId::Terminal(2), 6, 1), (PaneId::Terminal(3), 7, 5)]
    );
    assert_eq!(focus, Some(PaneId::Terminal(1)));
    let tiny = Viewport { rows: 2, ..viewport() };
    assert_eq!(
        acme_geometries_after_minimizing_pane(&columns, PaneId::Terminal(2), tiny),
        Err(AcmeError::NotEnoughRoomToMinimize)
    );
}

#[test]
fn restoring_a_snapshot_gives_back_the_heights() {
    let before = column(0, 40, vec![pane(1, 0, 0, 40, 3), pane(2, 0, 3, 40, 9)]);
    let snapshot = AcmePaneRowsSnapshot::new(&before, PaneId::Terminal(1));
    let now = vec![column(0, 40, vec![pane(1, 0, 0, 40, 6), pane(2, 0, 6, 40, 6)])];
    let plan = acme_geometries_after_restoring_pane_rows(&now, &snapshot, viewport()).unwrap();
    assert_eq!(rows_of(&plan), vec![(PaneId::Terminal(1), 0, 3), (PaneId::Terminal(2), 3, 9)]);
    let other = vec![column(0, 40, vec![pane(2, 0, 0, 40, 6), pane(1, 0, 6, 40, 6)])];
    assert_eq!(acme_geometries_after_restoring_pane_rows(&other, &snapshot, viewport()), Ok(vec![]));
}

#[test]
fn resizing_moves_rows_between_neighbours_and_keeps_the_total() {
    let mut c = column(0, 40, vec![pane(1, 0, 0, 40, 4), pane(2, 0, 4, 40, 4), pane(3, 0, 8, 40, 4)]);
    let grow_up = ResizeStrategy { resize: Resize::Increase, direction: Some(Direction::Up), invert_on_boundaries: false };
    assert_eq!(resize_acme_column_pane(&mut c, 1, &grow_up, 5, viewport()), Ok(true));
    let heights: Vec<usize> = c.pane_geometries.iter().map(|p| p.geom.rows.as_usize()).collect();
    assert_eq!(heights, vec![1, 7, 4]);
    assert_eq!(heights.iter().sum::<usize>(), 12);
    let ys: Vec<usize> = c.pane_geometries.iter().map(|p| p.geom.y).collect();
    assert_eq!(ys, vec![0, 1, 8]);
    assert_eq!(c.pane_geometries[0].geom.rows, Dimension::Fixed(1));
    assert_eq!(resize_acme_column_pane(&mut c, 1, &grow_up, 5, viewport()), Ok(false));
    let shrink_up = ResizeStrategy { resize: Resize::Decrease, direction: Some(Direction::Up), invert_on_boundaries: false };
    assert_eq!(resize_acme_column_pane(&mut c, 0, &shrink_up, 1, viewport()), Ok(false));
    assert_eq!(resize_acme_column_pane(&mut c, 7, &shrink_up, 1, viewport()), Ok(false));
    let short = Viewport { rows: 20, ..viewport() };
    let grow_down = ResizeStrategy { resize: Resize::Increase, direction: Some(Direction::Down), invert_on_boundaries: false };
    assert_eq!(resize_acme_column_pane(&mut c, 0, &grow_down, 1, short), Err(AcmeError::ColumnDoesNotFillHeight));
}

#[test]
fn removing_a_pane_gives_its_rows_to_the_open_pane_above() {
    let columns = vec![column(0, 40, vec![pane(1, 0, 0, 40, 4), pane(2, 0, 4, 40, 4), pane(3, 0, 8, 40, 4)])];
    let plan = acme_geometries_after_removing_pane(&columns, PaneId::Terminal(2), viewport()).unwrap();
    assert_eq!(rows_of(&plan), vec![(PaneId::Terminal(1), 0, 8), (PaneId::Terminal(3), 8, 4)]);
    assert_eq!(plan[0].1.cols, Dimension::Percent { inner: 40, full: 40 });
    assert_eq!(
        acme_geometries_after_removing_pane(&columns, PaneId::Terminal(9), viewport()),
        Err(AcmeError::PaneNotInAcmeColumn)
    );
    assert_eq!(acme_focus_target_after_removing_pane(&columns, PaneId::Terminal(1)), Some(PaneId::Terminal(2)));
}

#[test]
fn removing_the_last_pane_of_a_column_widens_the_next_one() {
    let columns = vec![
        column(0, 20, vec![pane(1, 0, 0, 20, 12)]),
        column(20, 20, vec![pane(2, 20, 0, 20, 12)]),
    ];
    let plan = acme_geometries_after_removing_pane(&columns, PaneId::Terminal(1), viewport()).unwrap();
    assert_eq!(plan.len(), 1);
    assert_eq!(plan[0].0, PaneId::Terminal(2));
    assert_eq!(plan[0].1.x, 0);
    assert_eq!(plan[0].1.cols, Dimension::Percent { inner: 40, full: 40 });
    let narrow = Viewport { cols: 30, ..viewport() };
    assert_eq!(
        acme_geometries_after_removing_pane(&columns, PaneId::Terminal(1), narrow),
        Err(AcmeError::ColumnsDoNotFillWidth)
    );
}

#[test]
fn moving_a_pane_to_another_column_shares_both_columns_again() {
    let columns = vec![
        column(0, 20, vec![pane(1, 0, 0, 20, 6), pane(2, 0, 6, 20, 6)]),
        column(20, 20, vec![pane(3, 20, 0, 20, 12)]),
    ];
    let plan = acme_geometries_after_moving_pane_to_position(&columns, PaneId::Terminal(2), 3, 25, viewport(), 1).unwrap();
    assert_eq!(
        rows_of(&plan),
        vec![(PaneId::Terminal(1), 0, 12), (PaneId::Terminal(3), 0, 6), (PaneId::Terminal(2), 6, 6)]
    );
    assert_eq!(acme_geometries_after_moving_pane_to_position(&columns, PaneId::Terminal(2), 3, 5, viewport(), 1), Ok(vec![]));
    assert_eq!(acme_geometries_after_moving_pane_to_position(&columns, PaneId::Terminal(2), 30, 25, viewport(), 1), Ok(vec![]));
    assert_eq!(
        acme_geometries_after_moving_pane_to_position(&columns, PaneId::Terminal(2), 3, 25, viewport(), 7),
        Err(AcmeError::NotEnoughRoomToMove)
    );
}

#[test]
fn reordering_a_pane_places_it_on_the_side_it_came_from() {
    let columns = vec![column(0, 40, vec![pane(1, 0, 0, 40, 4), pane(2, 0, 4, 40, 4), pane(3, 0, 8, 40, 4)])];
    let plan = acme_geometries_after_reordering_pane(&columns, PaneId::Terminal(1), 0, 9, 5, viewport()).unwrap();
    assert_eq!(
        rows_of(&plan),
        vec![(PaneId::Terminal(2), 0, 4), (PaneId::Terminal(3), 4, 4), (PaneId::Terminal(1), 8, 4)]
    );
    assert_eq!(acme_geometries_after_reordering_pane(&columns, PaneId::Terminal(1), 0, 0, 5, viewport()), Ok(vec![]));
    assert_eq!(acme_geometries_after_reordering_pane(&columns, PaneId::Terminal(1), 0, 2, 5, viewport()), Ok(vec![]));
}

#[test]
fn title_ids_name_each_pane_once() {
    let columns = vec![
        column(0, 20, vec![pane(1, 0, 0, 20, 6), pane(2, 0, 6, 20, 6)]),
        column(20, 20, vec![pane(3, 20, 0, 20, 12)]),
    ];
    let titles = acme_title_pane_ids(&columns);
    assert_eq!(titles, vec![PaneId::Terminal(1), PaneId::Terminal(2), PaneId::Terminal(3)]);
    assert_eq!(acme_panes_before_own_line_title(&columns, &titles), vec![PaneId::Terminal(1)]);
}

fn tiles(plan: &[(PaneId, PaneGeom)], rows: usize) -> bool {
    let mut y = 0;
    for (_, g) in plan {
        if g.y != y {
            return false;
        }
        y += g.rows.as_usize();
    }
    y == rows
}

#[test]
fn a_reordered_column_of_unequal_panes_still_fills_the_height() {
    let columns = vec![column(0, 40, vec![pane(1, 0, 0, 40, 2), pane(2, 0, 2, 40, 4), pane(3, 0, 6, 40, 6)])];
    let plan = acme_geometries_after_reordering_pane(&columns, PaneId::Terminal(1), 0, 8, 5, viewport()).unwrap();
    assert_eq!(
        rows_of(&plan),
        vec![(PaneId::Terminal(2), 0, 4), (PaneId::Terminal(3), 4, 6), (PaneId::Terminal(1), 10, 2)]
    );
    assert!(tiles(&plan, 12));
    let mut c = column(0, 40, vec![pane(1, 0, 0, 40, 2), pane(2, 0, 2, 40, 4), pane(3, 0, 6, 40, 6)]);
    let shrink_down = ResizeStrategy { resize: Resize::Decrease, direction: Some(Direction::Down), invert_on_boundaries: false };
    assert_eq!(resize_acme_column_pane(&mut c, 1, &shrink_down, 2, viewport()), Ok(true));
    let resized: Vec<(PaneId, PaneGeom)> = c.pane_geometries.iter().map(|p| (p.pane_id, p.geom)).collect();
    assert!(tiles(&resized, 12));
}

#[test]
fn a_moved_pane_joins_the_target_column_and_every_pane_stays_once() {
    let columns = vec![
        column(0, 20, vec![pane(1, 0, 0, 20, 6), pane(2, 0, 6, 20, 6)]),
        column(20, 20, vec![pane(3, 20, 0, 20, 12)]),
    ];
    let plan = acme_geometries_after_moving_pane_to_position(&columns, PaneId::Terminal(2), 3, 25, viewport(), 1).unwrap();
    let x_of = |id: u32| plan.iter().find(|(p, _)| *p == PaneId::Terminal(id)).unwrap().1.x;
    assert_eq!(x_of(2), x_of(3));
    assert_eq!(x_of(2), 20);
    let mut ids: Vec<PaneId> = plan.iter().map(|(p, _)| *p).collect();
    ids.sort_by_key(|p| match p { PaneId::Terminal(n) => *n, PaneId::Plugin(n) => 1000 + *n });
    assert_eq!(ids, vec![PaneId::Terminal(1), PaneId::Terminal(2), PaneId::Terminal(3)]);
    let target: Vec<(PaneId, PaneGeom)> = plan.iter().filter(|(_, g)| g.x == 20).cloned().collect();
    assert!(tiles(&target, 12));
}
