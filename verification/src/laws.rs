//! Proved laws of the grid and of the breadth-first search: classification
//! priority, idempotent marking, determinism, and termination of a full run.

use crate::controller::bfs_expand;
use crate::controller::bfs_run;
use crate::controller::bfs_step_spec;
use crate::controller::queue_in_bounds;
use crate::model::lemma_idx_bounds;
use crate::model::lemma_idx_injective;
use crate::model::lemma_neighbors_of_props;
use crate::model::pos_adjacent;
use crate::model::CellInfo;
use crate::model::CellState;
use crate::model::GridPos;
use crate::model::GridView;
use vstd::prelude::*;

verus! {

/// Classification priority: a cell classified WALL is never the designated
/// source or target; conversely the designation always wins, so a target
/// (or source) overlaying a wall cell still classifies TARGET (SOURCE).
pub proof fn lemma_wall_never_source_or_target(g: GridView, row: int, col: int)
    requires
        g.wf(),
        g.in_bounds(row, col),
    ensures
        g.classify(row, col) == CellState::WALL ==> !g.is_source_at(row, col) && !g.is_target_at(
            row,
            col,
        ),
        g.is_target_at(row, col) ==> g.classify(row, col) == CellState::TARGET,
        g.is_source_at(row, col) && !g.is_target_at(row, col) ==> g.classify(row, col)
            == CellState::SOURCE,
{
}

/// Idempotence: marking a cell visited twice is exactly marking it once;
/// the cell reads as visited, with its wall/frontier flags cleared, not
/// corrupted, either way.
pub proof fn lemma_mark_visited_idempotent(g: GridView, row: int, col: int)
    requires
        g.wf(),
        g.in_bounds(row, col),
    ensures
        g.mark_visited_m(row, col).mark_visited_m(row, col) == g.mark_visited_m(row, col),
        g.mark_visited_m(row, col).at(row, col).visited,
        !g.mark_visited_m(row, col).at(row, col).wall,
        !g.mark_visited_m(row, col).at(row, col).frontier,
{
    lemma_idx_bounds(g, row, col);
    assert(g.mark_visited_m(row, col).mark_visited_m(row, col) =~= g.mark_visited_m(row, col));
}

/// Determinism: one unit of search work, and hence a whole run, is a
/// function of the queue and the grid alone, so repeated full runs over a
/// fixed grid from a fixed source visit cells in exactly the same order.
pub proof fn lemma_search_deterministic(
    q1: Seq<GridPos>,
    g1: GridView,
    q2: Seq<GridPos>,
    g2: GridView,
    n: nat,
)
    requires
        q1 == q2,
        g1 == g2,
    ensures
        bfs_step_spec(q1, g1) == bfs_step_spec(q2, g2),
        bfs_run(q1, g1, n) == bfs_run(q2, g2, n),
{
}

/// Neighbor order: for any interior cell the neighbor list is exactly the
/// four adjacent positions in the fixed order up, left, right, down; border
/// cells get the same list with the out-of-bounds entries dropped.
pub proof fn lemma_neighbors_order_interior(g: GridView, row: int, col: int)
    requires
        g.wf(),
        0 < row && row + 1 < g.n_rows,
        0 < col && col + 1 < g.n_cols,
    ensures
        g.neighbors_of(row, col) == seq![
            (((row - 1) as usize, col as usize)),
            ((row as usize, (col - 1) as usize)),
            ((row as usize, (col + 1) as usize)),
            (((row + 1) as usize, col as usize)),
        ],
{
    assert(g.neighbors_of(row, col) =~= seq![
        (((row - 1) as usize, col as usize)),
        ((row as usize, (col - 1) as usize)),
        ((row as usize, (col + 1) as usize)),
        (((row + 1) as usize, col as usize)),
    ]);
}

/// How many of the first `n` cells the search has not yet touched.
pub open spec fn free_count_upto(cells: Seq<CellInfo>, n: int) -> int
    decreases n,
{
    if n <= 0 {
        0
    } else {
        free_count_upto(cells, n - 1) + if cells[n - 1].spec_untouched() {
            1int
        } else {
            0int
        }
    }
}

/// How many cells of the grid the search has not yet touched.
pub open spec fn free_count(g: GridView) -> int {
    free_count_upto(g.cells, g.cells.len() as int)
}

/// The measure a unit of search work strictly decreases while it reports
/// not-done: pending positions plus untouched cells.
pub open spec fn search_measure(q: Seq<GridPos>, g: GridView) -> int {
    q.len() + free_count(g)
}

proof fn lemma_free_count_upto_bounds(cells: Seq<CellInfo>, n: int)
    requires
        0 <= n,
    ensures
        0 <= free_count_upto(cells, n) <= n,
    decreases n,
{
    if n > 0 {
        lemma_free_count_upto_bounds(cells, n - 1);
    }
}

proof fn lemma_free_count_update(cells: Seq<CellInfo>, j: int, c: CellInfo, n: int)
    requires
        0 <= j < cells.len(),
        0 <= n <= cells.len(),
    ensures
        free_count_upto(cells.update(j, c), n) == free_count_upto(cells, n) + if j < n {
            (if c.spec_untouched() {
                1int
            } else {
                0int
            }) - (if cells[j].spec_untouched() {
                1int
            } else {
                0int
            })
        } else {
            0int
        },
    decreases n,
{
    if n > 0 {
        lemma_free_count_update(cells, j, c, n - 1);
    }
}

proof fn lemma_free_count_missing(cells: Seq<CellInfo>, j: int, n: int)
    requires
        0 <= j < n,
        !cells[j].spec_untouched(),
    ensures
        free_count_upto(cells, n) <= n - 1,
    decreases n,
{
    lemma_free_count_upto_bounds(cells, n - 1);
    if j < n - 1 {
        lemma_free_count_missing(cells, j, n - 1);
    }
}

/// The expansion phase trades exactly: every enqueued position was an
/// untouched cell that became frontier, so the measure is unchanged.
proof fn lemma_expand_measure(q: Seq<GridPos>, g: GridView, nbrs: Seq<GridPos>)
    requires
        g.wf(),
        forall|k: int| 0 <= k < nbrs.len() ==> g.pos_in_bounds(#[trigger] nbrs[k]),
    ensures
        bfs_expand(q, g, nbrs).0.len() + free_count(bfs_expand(q, g, nbrs).1) == q.len()
            + free_count(g),
    decreases nbrs.len(),
{
    if nbrs.len() > 0 {
        let n = nbrs[0];
        assert(g.pos_in_bounds(n));
        lemma_idx_bounds(g, n.0 as int, n.1 as int);
        let j = g.idx(n.0 as int, n.1 as int);
        assert(forall|k: int|
            0 <= k < nbrs.drop_first().len() ==> g.pos_in_bounds(#[trigger] nbrs.drop_first()[k]));
        if g.untouched_at(n.0 as int, n.1 as int) {
            let g1 = g.mark_frontier_m(n.0 as int, n.1 as int);
            lemma_free_count_update(g.cells, j, g.cells[j].with_flags(CellState::FRONTIER), g.cells.len() as int);
            assert(free_count(g1) == free_count(g) - 1);
            lemma_expand_measure(q.push(n), g1, nbrs.drop_first());
        } else {
            lemma_expand_measure(q, g, nbrs.drop_first());
        }
    }
}

/// What one unit of search work preserves and how it progresses: the grid
/// stays well formed with its dimensions and designations intact, the queue
/// stays in bounds, a done report comes with an emptied queue and an
/// untouched grid, and a not-done report strictly decreases the measure
/// (by two when the popped cell was still untouched).
pub proof fn lemma_step_props(q: Seq<GridPos>, g: GridView)
    requires
        g.wf(),
        queue_in_bounds(q, g),
    ensures
        bfs_step_spec(q, g).grid.wf(),
        bfs_step_spec(q, g).grid.n_rows == g.n_rows,
        bfs_step_spec(q, g).grid.n_cols == g.n_cols,
        bfs_step_spec(q, g).grid.source == g.source,
        bfs_step_spec(q, g).grid.target == g.target,
        bfs_step_spec(q, g).grid.cells.len() == g.cells.len(),
        queue_in_bounds(bfs_step_spec(q, g).queue, bfs_step_spec(q, g).grid),
        bfs_step_spec(q, g).done ==> bfs_step_spec(q, g).queue.len() == 0 && bfs_step_spec(
            q,
            g,
        ).grid == g,
        !bfs_step_spec(q, g).done ==> search_measure(bfs_step_spec(q, g).queue, bfs_step_spec(
            q,
            g,
        ).grid) <= search_measure(q, g) - 1,
        !bfs_step_spec(q, g).done && g.at_pos(q[0]).spec_untouched() ==> search_measure(
            bfs_step_spec(q, g).queue,
            bfs_step_spec(q, g).grid,
        ) <= search_measure(q, g) - 2,
{
    if q.len() > 0 {
        let p = q[0];
        assert(g.pos_in_bounds(p));
        let rest = q.drop_first();
        assert(queue_in_bounds(rest, g)) by {
            assert(forall|k: int| 0 <= k < rest.len() ==> #[trigger] rest[k] == q[k + 1]);
        }
        lemma_idx_bounds(g, p.0 as int, p.1 as int);
        let j = g.idx(p.0 as int, p.1 as int);
        if !g.is_target_at(p.0 as int, p.1 as int) && !g.at_pos(p).visited {
            let g1 = g.mark_visited_m(p.0 as int, p.1 as int);
            let nb = g1.neighbors_of(p.0 as int, p.1 as int);
            lemma_free_count_update(g.cells, j, g.cells[j].with_flags(CellState::VISITED), g.cells.len() as int);
            assert(g1.wf());
            lemma_neighbors_of_props(g1, p);
            crate::controller::lemma_bfs_expand_props(rest, g1, nb);
            lemma_expand_measure(rest, g1, nb);
            if g.at_pos(p).spec_untouched() {
                assert(free_count(g1) == free_count(g) - 1);
            } else {
                lemma_free_count_missing(g1.cells, j, g1.cells.len() as int);
            }
        }
    }
}

/// From any reachable search state, at most `search_measure` further calls
/// report not-done: after `n >= search_measure` units of work the next
/// call reports done.
pub proof fn lemma_run_reaches_done(q: Seq<GridPos>, g: GridView, n: nat)
    requires
        g.wf(),
        queue_in_bounds(q, g),
        search_measure(q, g) <= n,
    ensures
        bfs_step_spec(bfs_run(q, g, n).0, bfs_run(q, g, n).1).done,
    decreases n,
{
    if q.len() == 0 {
        lemma_run_empty(q, g, n);
    } else {
        lemma_free_count_upto_bounds(g.cells, g.cells.len() as int);
        assert(n >= 1);
        let s = bfs_step_spec(q, g);
        lemma_step_props(q, g);
        assert(bfs_run(q, g, n) == bfs_run(s.queue, s.grid, (n - 1) as nat));
        if s.done {
            lemma_run_empty(s.queue, s.grid, (n - 1) as nat);
        } else {
            lemma_run_reaches_done(s.queue, s.grid, (n - 1) as nat);
        }
    }
}

/// A search with nothing pending stays exactly as it is, reporting done.
pub proof fn lemma_run_empty(q: Seq<GridPos>, g: GridView, n: nat)
    requires
        q.len() == 0,
    ensures
        bfs_run(q, g, n) == (q, g),
        bfs_step_spec(q, g).done,
    decreases n,
{
    if n > 0 {
        lemma_run_empty(q, g, (n - 1) as nat);
    }
}

/// Termination: on a finite well-formed grid, a search seeded with one
/// in-bounds source position reaches a done state within
/// `n_rows * n_cols + 1` step calls — after `n_rows * n_cols` units of
/// work, the next call reports done.
pub proof fn lemma_search_terminates(source: GridPos, g: GridView)
    requires
        g.wf(),
        g.pos_in_bounds(source),
    ensures
        bfs_step_spec(
            bfs_run(seq![source], g, (g.n_rows * g.n_cols) as nat).0,
            bfs_run(seq![source], g, (g.n_rows * g.n_cols) as nat).1,
        ).done,
{
    let q0: Seq<GridPos> = seq![source];
    assert(g.n_rows * g.n_cols >= 1) by (nonlinear_arith)
        requires
            1 <= g.n_rows,
            1 <= g.n_cols,
    {}
    let n = (g.n_rows * g.n_cols) as nat;
    let cc = g.cells.len() as int;
    lemma_free_count_upto_bounds(g.cells, cc);
    assert(queue_in_bounds(q0, g));
    let s = bfs_step_spec(q0, g);
    lemma_step_props(q0, g);
    assert(bfs_run(q0, g, n) == bfs_run(s.queue, s.grid, (n - 1) as nat));
    if s.done {
        lemma_run_empty(s.queue, s.grid, (n - 1) as nat);
    } else {
        lemma_idx_bounds(g, source.0 as int, source.1 as int);
        if g.at_pos(source).spec_untouched() {
            assert(search_measure(s.queue, s.grid) <= cc - 1);
        } else {
            lemma_free_count_missing(g.cells, g.idx(source.0 as int, source.1 as int), cc);
            assert(search_measure(s.queue, s.grid) <= cc - 1);
        }
        lemma_run_reaches_done(s.queue, s.grid, (n - 1) as nat);
    }
}

/// The target cell `tp` is designated, unvisited, and fully enclosed:
/// every in-bounds position orthogonally adjacent to it is a wall.
pub open spec fn target_enclosed(g: GridView, tp: GridPos) -> bool {
    &&& g.pos_in_bounds(tp)
    &&& g.is_target_at(tp.0 as int, tp.1 as int)
    &&& !g.at_pos(tp).visited
    &&& forall|p: GridPos|
        g.pos_in_bounds(p) && pos_adjacent(tp, p) ==> (#[trigger] g.at_pos(p)).wall
}

/// No pending position is the target cell or adjacent to it.
pub open spec fn queue_avoids_target(q: Seq<GridPos>, tp: GridPos) -> bool {
    forall|k: int| 0 <= k < q.len() ==> (#[trigger] q[k]) != tp && !pos_adjacent(tp, q[k])
}

proof fn lemma_enclosed_expand(q: Seq<GridPos>, g: GridView, nbrs: Seq<GridPos>, tp: GridPos)
    requires
        g.wf(),
        forall|k: int| 0 <= k < nbrs.len() ==> g.pos_in_bounds(#[trigger] nbrs[k]),
        forall|k: int| 0 <= k < nbrs.len() ==> (#[trigger] nbrs[k]) != tp,
        target_enclosed(g, tp),
        queue_avoids_target(q, tp),
    ensures
        target_enclosed(bfs_expand(q, g, nbrs).1, tp),
        queue_avoids_target(bfs_expand(q, g, nbrs).0, tp),
    decreases nbrs.len(),
{
    if nbrs.len() > 0 {
        let n = nbrs[0];
        assert(g.pos_in_bounds(n) && n != tp);
        lemma_idx_bounds(g, n.0 as int, n.1 as int);
        lemma_idx_bounds(g, tp.0 as int, tp.1 as int);
        assert(forall|k: int|
            0 <= k < nbrs.drop_first().len() ==> g.pos_in_bounds(#[trigger] nbrs.drop_first()[k])
                && nbrs.drop_first()[k] != tp);
        if g.untouched_at(n.0 as int, n.1 as int) {
            assert(!pos_adjacent(tp, n)) by {
                if pos_adjacent(tp, n) {
                    assert(g.at_pos(n).wall);
                }
            }
            let g1 = g.mark_frontier_m(n.0 as int, n.1 as int);
            assert(g1.wf());
            if g.idx(n.0 as int, n.1 as int) == g.idx(tp.0 as int, tp.1 as int) {
                lemma_idx_injective(g, n.0 as int, n.1 as int, tp.0 as int, tp.1 as int);
            }
            assert(target_enclosed(g1, tp)) by {
                assert forall|p: GridPos|
                    g1.pos_in_bounds(p) && pos_adjacent(tp, p) implies (#[trigger] g1.at_pos(
                    p,
                )).wall by {
                    assert(g.at_pos(p).wall);
                    lemma_idx_bounds(g, p.0 as int, p.1 as int);
                    if g.idx(p.0 as int, p.1 as int) == g.idx(n.0 as int, n.1 as int) {
                        lemma_idx_injective(g, p.0 as int, p.1 as int, n.0 as int, n.1 as int);
                    }
                }
            }
            assert(queue_avoids_target(q.push(n), tp));
            lemma_enclosed_expand(q.push(n), g1, nbrs.drop_first(), tp);
        } else {
            lemma_enclosed_expand(q, g, nbrs.drop_first(), tp);
        }
    }
}

/// One unit of search work keeps an enclosed target enclosed and unvisited,
/// keeps the queue clear of the target and its wall ring, and can only
/// report done because the queue was empty — never by finding the target.
pub proof fn lemma_enclosed_step(q: Seq<GridPos>, g: GridView, tp: GridPos)
    requires
        g.wf(),
        queue_in_bounds(q, g),
        target_enclosed(g, tp),
        queue_avoids_target(q, tp),
    ensures
        target_enclosed(bfs_step_spec(q, g).grid, tp),
        queue_avoids_target(bfs_step_spec(q, g).queue, tp),
        bfs_step_spec(q, g).done ==> q.len() == 0,
{
    if q.len() > 0 {
        let p = q[0];
        assert(g.pos_in_bounds(p) && p != tp && !pos_adjacent(tp, p));
        let rest = q.drop_first();
        assert(queue_avoids_target(rest, tp)) by {
            assert(forall|k: int| 0 <= k < rest.len() ==> #[trigger] rest[k] == q[k + 1]);
        }
        lemma_idx_bounds(g, p.0 as int, p.1 as int);
        lemma_idx_bounds(g, tp.0 as int, tp.1 as int);
        if g.is_target_at(p.0 as int, p.1 as int) {
            lemma_idx_injective(g, p.0 as int, p.1 as int, tp.0 as int, tp.1 as int);
            assert(false);
        } else if !g.at_pos(p).visited {
            let g1 = g.mark_visited_m(p.0 as int, p.1 as int);
            assert(g1.wf());
            if g.idx(p.0 as int, p.1 as int) == g.idx(tp.0 as int, tp.1 as int) {
                lemma_idx_injective(g, p.0 as int, p.1 as int, tp.0 as int, tp.1 as int);
            }
            assert(target_enclosed(g1, tp)) by {
                assert forall|pp: GridPos|
                    g1.pos_in_bounds(pp) && pos_adjacent(tp, pp) implies (#[trigger] g1.at_pos(
                    pp,
                )).wall by {
                    assert(g.at_pos(pp).wall);
                    lemma_idx_bounds(g, pp.0 as int, pp.1 as int);
                    if g.idx(pp.0 as int, pp.1 as int) == g.idx(p.0 as int, p.1 as int) {
                        lemma_idx_injective(g, pp.0 as int, pp.1 as int, p.0 as int, p.1 as int);
                    }
                }
            }
            let nb = g1.neighbors_of(p.0 as int, p.1 as int);
            lemma_neighbors_of_props(g1, p);
            assert(forall|k: int| 0 <= k < nb.len() ==> g1.pos_in_bounds(#[trigger] nb[k]));
            assert forall|k: int| 0 <= k < nb.len() implies (#[trigger] nb[k]) != tp by {
                if nb[k] == tp {
                    assert(pos_adjacent(p, tp));
                }
            }
            lemma_enclosed_expand(rest, g1, nb, tp);
        }
    }
}

/// Unreachability: a search seeded with a source that is neither the
/// enclosed target nor part of its wall ring never visits the target cell,
/// however long it runs, and whenever it reports done the queue was
/// exhausted — the target was never found.
pub proof fn lemma_enclosed_target_unreached(source: GridPos, g: GridView, tp: GridPos, n: nat)
    requires
        g.wf(),
        g.pos_in_bounds(source),
        target_enclosed(g, tp),
        source != tp,
        !pos_adjacent(tp, source),
    ensures
        !bfs_run(seq![source], g, n).1.at_pos(tp).visited,
        target_enclosed(bfs_run(seq![source], g, n).1, tp),
        bfs_step_spec(bfs_run(seq![source], g, n).0, bfs_run(seq![source], g, n).1).done
            ==> bfs_run(seq![source], g, n).0.len() == 0,
{
    let q0: Seq<GridPos> = seq![source];
    assert(queue_in_bounds(q0, g));
    assert(queue_avoids_target(q0, tp));
    lemma_enclosed_run(q0, g, tp, n);
}

proof fn lemma_enclosed_run(q: Seq<GridPos>, g: GridView, tp: GridPos, n: nat)
    requires
        g.wf(),
        queue_in_bounds(q, g),
        target_enclosed(g, tp),
        queue_avoids_target(q, tp),
    ensures
        bfs_run(q, g, n).1.wf(),
        target_enclosed(bfs_run(q, g, n).1, tp),
        queue_avoids_target(bfs_run(q, g, n).0, tp),
        queue_in_bounds(bfs_run(q, g, n).0, bfs_run(q, g, n).1),
        bfs_step_spec(bfs_run(q, g, n).0, bfs_run(q, g, n).1).done ==> bfs_run(q, g, n).0.len()
            == 0,
    decreases n,
{
    if n == 0 {
        lemma_enclosed_step(q, g, tp);
    } else {
        let s = bfs_step_spec(q, g);
        lemma_step_props(q, g);
        lemma_enclosed_step(q, g, tp);
        assert(bfs_run(q, g, n) == bfs_run(s.queue, s.grid, (n - 1) as nat));
        lemma_enclosed_run(s.queue, s.grid, tp, (n - 1) as nat);
    }
}

} // verus!
