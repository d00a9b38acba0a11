use grid_search::model::CellState;
use grid_search::model::Grid;
use grid_search::model::GridError;

#[test]
fn empty_grid_is_all_open() {
    let g = Grid::empty(3, 4);
    assert_eq!(g.n_rows, 3);
    assert_eq!(g.n_cols, 4);
    assert_eq!(g.rows(), 3);
    assert_eq!(g.cols(), 4);
    for row in 0..3 {
        for col in 0..4 {
            assert_eq!(g.cell_state(row, col), CellState::OPEN);
            assert!(!g.is_wall(row, col));
            assert!(!g.is_visited(row, col));
            assert!(!g.is_frontier(row, col));
            assert!(!g.is_source(row, col));
            assert!(!g.is_target(row, col));
            assert!(g.is_untouched(row, col));
        }
    }
}

#[test]
fn set_state_is_flag_exclusive() {
    let mut g = Grid::empty(2, 2);
    g.set_state(0, 1, CellState::VISITED);
    assert!(g.is_visited(0, 1) && !g.is_wall(0, 1) && !g.is_frontier(0, 1));
    g.set_state(0, 1, CellState::WALL);
    assert!(g.is_wall(0, 1) && !g.is_visited(0, 1) && !g.is_frontier(0, 1));
    g.set_state(0, 1, CellState::FRONTIER);
    assert!(g.is_frontier(0, 1) && !g.is_wall(0, 1) && !g.is_visited(0, 1));
    g.set_state(0, 1, CellState::OPEN);
    assert!(g.is_untouched(0, 1));
}

#[test]
fn target_overlays_wall_in_classification() {
    let mut g = Grid::empty(3, 3);
    g.set_wall(1, 2, true);
    g.set_state(1, 2, CellState::TARGET);
    // The wall flag stays set, but the designation wins the classification.
    assert!(g.is_wall(1, 2));
    assert_eq!(g.cell_state(1, 2), CellState::TARGET);
}

#[test]
fn source_overlays_wall_in_classification() {
    let mut g = Grid::empty(3, 3);
    g.set_wall(2, 0, true);
    g.set_source(2, 0).unwrap();
    assert!(g.is_wall(2, 0));
    assert_eq!(g.cell_state(2, 0), CellState::SOURCE);
}

#[test]
fn wall_cell_is_not_source_or_target() {
    let mut g = Grid::empty(3, 3);
    g.set_source(0, 0).unwrap();
    g.set_target(2, 2).unwrap();
    g.set_wall(1, 1, true);
    assert_eq!(g.cell_state(1, 1), CellState::WALL);
    assert!(!g.is_source(1, 1));
    assert!(!g.is_target(1, 1));
}

#[test]
fn mark_visited_is_idempotent() {
    let mut g = Grid::empty(3, 3);
    g.mark_visited(1, 1);
    g.mark_visited(1, 1);
    assert!(g.is_visited(1, 1));
    assert!(!g.is_wall(1, 1));
    assert!(!g.is_frontier(1, 1));
    assert_eq!(g.cell_state(1, 1), CellState::VISITED);
}

#[test]
fn set_source_rejects_out_of_bounds() {
    let mut g = Grid::empty(2, 2);
    assert_eq!(g.set_source(2, 0), Err(GridError::InvalidCoordinate));
    assert_eq!(g.set_source(0, 5), Err(GridError::InvalidCoordinate));
    for row in 0..2 {
        for col in 0..2 {
            assert!(!g.is_source(row, col));
        }
    }
    assert_eq!(g.set_source(1, 1), Ok(()));
    assert!(g.is_source(1, 1));
}

#[test]
fn set_target_rejects_out_of_bounds() {
    let mut g = Grid::empty(2, 2);
    assert_eq!(g.set_target(9, 9), Err(GridError::InvalidCoordinate));
    for row in 0..2 {
        for col in 0..2 {
            assert!(!g.is_target(row, col));
        }
    }
    assert_eq!(g.set_target(0, 1), Ok(()));
    assert!(g.is_target(0, 1));
}

#[test]
fn neighbors_fixed_order_for_interior_cell() {
    let g = Grid::empty(5, 5);
    assert_eq!(g.neighbors(2, 2), vec![(1, 2), (2, 1), (2, 3), (3, 2)]);
}

#[test]
fn neighbors_at_borders_drop_out_of_bounds() {
    let g = Grid::empty(5, 5);
    assert_eq!(g.neighbors(0, 0), vec![(0, 1), (1, 0)]);
    assert_eq!(g.neighbors(4, 4), vec![(3, 4), (4, 3)]);
    assert_eq!(g.neighbors(0, 2), vec![(0, 1), (0, 3), (1, 2)]);
    assert_eq!(g.neighbors(2, 0), vec![(1, 0), (2, 1), (3, 0)]);
}

#[test]
fn neighbors_on_one_by_one_grid_is_empty() {
    let g = Grid::empty(1, 1);
    assert_eq!(g.neighbors(0, 0), Vec::<(usize, usize)>::new());
}

#[test]
fn regenerate_sets_walls_row_major() {
    let mut g = Grid::empty(2, 3);
    g.set_source(0, 0).unwrap();
    let walls = vec![true, false, false, true, false, true];
    g.regenerate(&walls);
    assert!(g.is_wall(0, 0));
    assert!(!g.is_wall(0, 1));
    assert!(!g.is_wall(0, 2));
    assert!(g.is_wall(1, 0));
    assert!(!g.is_wall(1, 1));
    assert!(g.is_wall(1, 2));
    // Source designation is untouched by regeneration.
    assert!(g.is_source(0, 0));
}

#[test]
fn regenerate_leaves_search_progress_alone() {
    let mut g = Grid::empty(2, 2);
    g.mark_visited(0, 0);
    g.mark_frontier(0, 1);
    g.set_origin((0, 1), (1, 1));
    g.regenerate(&vec![false, false, true, false]);
    // Only the wall flags change; visited/frontier flags and origin bits
    // survive a regeneration (a full reset rebuilds from empty instead).
    assert!(g.is_visited(0, 0));
    assert!(g.is_frontier(0, 1));
    assert!(g.is_wall(1, 0));
    assert!(!g.is_wall(0, 0));
    let origins = g.cell_origins();
    for (row, col, dr, dc) in origins {
        if (row, col) == (1, 1) {
            assert_eq!((dr, dc), (-1, 0));
        } else {
            assert_eq!((dr, dc), (0, 0));
        }
    }
}

#[test]
fn regenerate_clears_previous_walls_where_false() {
    let mut g = Grid::empty(2, 2);
    g.set_wall(0, 0, true);
    g.regenerate(&vec![false, true, false, false]);
    assert!(!g.is_wall(0, 0));
    assert!(g.is_wall(0, 1));
}

#[test]
fn clear_resets_every_flag_but_keeps_designations() {
    let mut g = Grid::empty(2, 2);
    g.set_wall(0, 1, true);
    g.mark_visited(1, 0);
    g.set_origin((0, 0), (1, 1));
    g.set_source(0, 0).unwrap();
    g.set_target(1, 1).unwrap();
    g.clear();
    for row in 0..2 {
        for col in 0..2 {
            assert!(g.is_untouched(row, col));
        }
    }
    for (_, _, dr, dc) in g.cell_origins() {
        assert_eq!((dr, dc), (0, 0));
    }
    assert!(g.is_source(0, 0));
    assert!(g.is_target(1, 1));
}

#[test]
fn cell_states_lists_row_major() {
    let mut g = Grid::empty(2, 2);
    g.set_wall(1, 0, true);
    let expected = vec![
        (0, 0, CellState::OPEN),
        (0, 1, CellState::OPEN),
        (1, 0, CellState::WALL),
        (1, 1, CellState::OPEN),
    ];
    assert_eq!(g.cell_states(), expected);
}

#[test]
fn set_origin_records_direction_toward_source() {
    let mut g = Grid::empty(3, 3);
    g.set_origin((0, 0), (1, 1));
    let origins = g.cell_origins();
    for (row, col, dr, dc) in origins {
        if (row, col) == (1, 1) {
            // The source lies up and to the left of the target cell.
            assert_eq!((dr, dc), (-1, -1));
        } else {
            assert_eq!((dr, dc), (0, 0));
        }
    }
}

#[test]
fn set_origin_overwrites_previous_bits() {
    let mut g = Grid::empty(3, 3);
    g.set_origin((0, 0), (1, 1));
    g.set_origin((2, 1), (1, 1));
    let origins = g.cell_origins();
    for (row, col, dr, dc) in origins {
        if (row, col) == (1, 1) {
            // The source now lies straight down from the target cell.
            assert_eq!((dr, dc), (1, 0));
        } else {
            assert_eq!((dr, dc), (0, 0));
        }
    }
}

#[test]
fn set_state_keeps_origin_bits() {
    let mut g = Grid::empty(3, 3);
    g.set_origin((0, 1), (1, 1));
    g.set_state(1, 1, CellState::WALL);
    let origins = g.cell_origins();
    for (row, col, dr, dc) in origins {
        if (row, col) == (1, 1) {
            assert_eq!((dr, dc), (-1, 0));
        } else {
            assert_eq!((dr, dc), (0, 0));
        }
    }
    assert!(g.is_wall(1, 1));
}

#[test]
fn cell_origins_matches_origin_offset_encoding() {
    let mut g = Grid::empty(2, 2);
    g.set_origin((1, 0), (0, 0));
    let origins = g.cell_origins();
    assert_eq!(origins[0], (0, 0, 1, 0));
    assert_eq!(origins.len(), 4);
}
