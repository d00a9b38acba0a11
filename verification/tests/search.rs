use grid_search::controller::BreadthFirstSearcher;
use grid_search::controller::DynamicGridSearcher;
use grid_search::controller::GridSearchStepper;
use grid_search::model::CellState;
use grid_search::model::Grid;
use grid_search::model::GridError;

/// Steps the search to completion; reports how many calls it took and
/// whether completion was a found target (done reported while work was
/// still pending) rather than an exhausted queue.
fn run_to_done(searcher: &mut BreadthFirstSearcher, grid: &mut Grid, max_calls: usize) -> (usize, bool) {
    let mut calls = 0;
    loop {
        let pending_before = searcher.pending_positions().len();
        let done = searcher.step_search(grid);
        calls += 1;
        if done {
            return (calls, pending_before > 0);
        }
        assert!(calls <= max_calls, "search did not finish within {} calls", max_calls);
    }
}

/// The visit order of a full run over a 5x5 grid with a fixed wall layout,
/// recovered by scanning for the newly visited cell after every step.
fn visit_order_of_run() -> Vec<(usize, usize)> {
    let mut grid = Grid::empty(5, 5);
    let mut walls = vec![false; 25];
    walls[7] = true; // (1, 2)
    walls[11] = true; // (2, 1)
    walls[17] = true; // (3, 2)
    grid.regenerate(&walls);
    grid.set_source(0, 0).unwrap();
    grid.set_target(4, 4).unwrap();
    let mut searcher = BreadthFirstSearcher::new();
    searcher.reset(&grid, (0, 0), (4, 4)).unwrap();

    let mut order = Vec::new();
    let mut visited = vec![false; 25];
    loop {
        let done = searcher.step_search(&mut grid);
        for row in 0..5 {
            for col in 0..5 {
                if grid.is_visited(row, col) && !visited[row * 5 + col] {
                    visited[row * 5 + col] = true;
                    order.push((row, col));
                }
            }
        }
        if done {
            return order;
        }
        assert!(order.len() <= 25);
    }
}

#[test]
fn fresh_searcher_reports_done_immediately() {
    let mut grid = Grid::empty(3, 3);
    let mut searcher = BreadthFirstSearcher::new();
    assert!(searcher.pending_positions().is_empty());
    assert!(searcher.step_search(&mut grid));
    assert_eq!(grid.cell_states(), Grid::empty(3, 3).cell_states());
}

#[test]
fn reset_seeds_queue_with_source_only() {
    let grid = Grid::empty(4, 4);
    let mut searcher = BreadthFirstSearcher::new();
    searcher.reset(&grid, (1, 1), (3, 3)).unwrap();
    assert_eq!(searcher.pending_positions(), vec![(1, 1)]);
    searcher.reset(&grid, (2, 0), (3, 3)).unwrap();
    assert_eq!(searcher.pending_positions(), vec![(2, 0)]);
}

#[test]
fn reset_rejects_out_of_bounds_endpoints() {
    let grid = Grid::empty(3, 3);
    let mut searcher = BreadthFirstSearcher::new();
    searcher.reset(&grid, (1, 1), (2, 2)).unwrap();
    // An out-of-bounds source or target is rejected fast, and the pending
    // queue is left exactly as it was — never seeded with garbage.
    assert_eq!(
        searcher.reset(&grid, (3, 0), (2, 2)),
        Err(GridError::InvalidCoordinate)
    );
    assert_eq!(
        searcher.reset(&grid, (0, 0), (0, 9)),
        Err(GridError::InvalidCoordinate)
    );
    assert_eq!(searcher.pending_positions(), vec![(1, 1)]);
}

#[test]
fn first_step_visits_source_and_expands_frontier() {
    let mut grid = Grid::empty(3, 3);
    grid.set_source(1, 1).unwrap();
    grid.set_target(2, 2).unwrap();
    let mut searcher = BreadthFirstSearcher::new();
    searcher.reset(&grid, (1, 1), (2, 2)).unwrap();
    let done = searcher.step_search(&mut grid);
    assert!(!done);
    assert!(grid.is_visited(1, 1));
    // Neighbors in the fixed order up, left, right, down.
    assert_eq!(searcher.pending_positions(), vec![(0, 1), (1, 0), (1, 2), (2, 1)]);
    for &(row, col) in &[(0, 1), (1, 0), (1, 2), (2, 1)] {
        assert!(grid.is_frontier(row, col));
    }
}

#[test]
fn walls_are_not_expanded_into() {
    let mut grid = Grid::empty(3, 3);
    grid.set_wall(0, 1, true);
    grid.set_wall(1, 0, true);
    grid.set_source(0, 0).unwrap();
    grid.set_target(2, 2).unwrap();
    let mut searcher = BreadthFirstSearcher::new();
    searcher.reset(&grid, (0, 0), (2, 2)).unwrap();
    let done = searcher.step_search(&mut grid);
    assert!(!done);
    // Both neighbors of the source are walls, so nothing was enqueued.
    assert!(searcher.pending_positions().is_empty());
    assert!(!grid.is_frontier(0, 1));
    assert!(!grid.is_frontier(1, 0));
}

#[test]
fn popping_a_visited_position_is_a_noop_step() {
    let mut grid = Grid::empty(2, 2);
    grid.set_target(1, 1).unwrap();
    let mut searcher = BreadthFirstSearcher::new();
    searcher.reset(&grid, (0, 0), (1, 1)).unwrap();
    assert!(!searcher.step_search(&mut grid));
    assert!(grid.is_visited(0, 0));
    // Seed the queue with the already-visited source again: the step pops
    // it, skips it, and performs no further work that call.
    searcher.reset(&grid, (0, 0), (1, 1)).unwrap();
    let frontier_before: Vec<_> = grid
        .cell_states()
        .into_iter()
        .filter(|&(_, _, s)| s == CellState::FRONTIER)
        .collect();
    assert!(!searcher.step_search(&mut grid));
    let frontier_after: Vec<_> = grid
        .cell_states()
        .into_iter()
        .filter(|&(_, _, s)| s == CellState::FRONTIER)
        .collect();
    assert_eq!(frontier_before, frontier_after);
    // The queue is now exhausted, so the next call reports done.
    assert!(searcher.step_search(&mut grid));
}

#[test]
fn reachability_on_open_five_by_five() {
    let mut grid = Grid::empty(5, 5);
    grid.set_source(0, 0).unwrap();
    grid.set_target(4, 4).unwrap();
    let mut searcher = BreadthFirstSearcher::new();
    searcher.reset(&grid, (0, 0), (4, 4)).unwrap();
    let (calls, found) = run_to_done(&mut searcher, &mut grid, 26);
    assert!(found, "open grid: the target must be found");
    assert!(calls <= 26);
    // Every cell except the target ends up visited; the source stays
    // classified SOURCE and the target TARGET by priority.
    for row in 0..5 {
        for col in 0..5 {
            if (row, col) == (4, 4) {
                assert!(!grid.is_visited(row, col));
                assert_eq!(grid.cell_state(row, col), CellState::TARGET);
            } else {
                assert!(grid.is_visited(row, col));
            }
        }
    }
    assert_eq!(grid.cell_state(0, 0), CellState::SOURCE);
}

#[test]
fn enclosed_target_is_exhausted_not_found() {
    let mut grid = Grid::empty(5, 5);
    // Wall ring around (2, 2).
    grid.set_wall(1, 2, true);
    grid.set_wall(3, 2, true);
    grid.set_wall(2, 1, true);
    grid.set_wall(2, 3, true);
    grid.set_source(0, 0).unwrap();
    grid.set_target(2, 2).unwrap();
    let mut searcher = BreadthFirstSearcher::new();
    searcher.reset(&grid, (0, 0), (2, 2)).unwrap();
    let (_, found) = run_to_done(&mut searcher, &mut grid, 26);
    assert!(!found, "an enclosed target must never be found");
    assert!(!grid.is_visited(2, 2));
    assert_eq!(grid.cell_state(2, 2), CellState::TARGET);
}

#[test]
fn search_terminates_within_cell_count_plus_one_calls() {
    // No target designated: the search always exhausts the queue, within
    // n_rows * n_cols + 1 calls.
    let mut grid = Grid::empty(4, 4);
    grid.set_source(1, 2).unwrap();
    let mut searcher = BreadthFirstSearcher::new();
    searcher.reset(&grid, (1, 2), (0, 0)).unwrap();
    let (calls, found) = run_to_done(&mut searcher, &mut grid, 17);
    assert!(!found);
    assert!(calls <= 17);
}

#[test]
fn repeated_runs_visit_cells_in_the_same_order() {
    let first = visit_order_of_run();
    let second = visit_order_of_run();
    assert_eq!(first, second);
    assert!(first.len() > 10);
}

#[test]
fn reset_discards_queue_but_leaves_grid_progress() {
    let mut grid = Grid::empty(5, 5);
    grid.set_source(0, 0).unwrap();
    grid.set_target(4, 4).unwrap();
    let mut searcher = BreadthFirstSearcher::new();
    searcher.reset(&grid, (0, 0), (4, 4)).unwrap();
    for _ in 0..5 {
        assert!(!searcher.step_search(&mut grid));
    }
    let states_before = grid.cell_states();
    assert!(grid.is_visited(0, 0));
    searcher.reset(&grid, (3, 3), (4, 4)).unwrap();
    // The queue holds exactly the new source; the grid is untouched.
    assert_eq!(searcher.pending_positions(), vec![(3, 3)]);
    assert_eq!(grid.cell_states(), states_before);
}

#[test]
fn stepping_after_done_stays_done_without_mutation() {
    let mut grid = Grid::empty(2, 2);
    grid.set_source(0, 0).unwrap();
    grid.set_target(1, 1).unwrap();
    let mut searcher = BreadthFirstSearcher::new();
    searcher.reset(&grid, (0, 0), (1, 1)).unwrap();
    let (_, found) = run_to_done(&mut searcher, &mut grid, 5);
    assert!(found);
    let snapshot = grid.clone();
    assert!(searcher.step_search(&mut grid));
    assert!(searcher.step_search(&mut grid));
    // Snapshot comparison, as a host's change detection would do it.
    assert!(grid == snapshot);
    assert_eq!(grid.cell_states(), snapshot.cell_states());
}

#[test]
fn popping_the_target_reports_found_and_clears_queue() {
    let mut grid = Grid::empty(3, 3);
    grid.set_source(1, 1).unwrap();
    grid.set_target(1, 1).unwrap();
    let mut searcher = BreadthFirstSearcher::new();
    searcher.reset(&grid, (1, 1), (1, 1)).unwrap();
    // The very first pop is the target: done, nothing marked, queue empty.
    assert!(searcher.step_search(&mut grid));
    assert!(searcher.pending_positions().is_empty());
    assert!(!grid.is_visited(1, 1));
}

#[test]
fn dynamic_searcher_delegates_to_breadth_first() {
    let mut grid = Grid::empty(3, 3);
    grid.set_source(0, 0).unwrap();
    grid.set_target(2, 2).unwrap();
    let mut searcher = DynamicGridSearcher::from(BreadthFirstSearcher::new());
    searcher.reset(&grid, (0, 0), (2, 2)).unwrap();
    let mut calls = 0;
    let mut found = false;
    loop {
        let DynamicGridSearcher::BreadthFirst(inner) = &searcher;
        let pending_before = inner.pending_positions().len();
        let done = searcher.step_search(&mut grid);
        calls += 1;
        if done {
            found = pending_before > 0;
            break;
        }
        assert!(calls <= 10);
    }
    assert!(found);
    assert!(grid.is_visited(0, 0));
    assert!(!grid.is_visited(2, 2));
}
