//! The steppable search controllers: a breadth-first searcher and the
//! closed set of selectable search strategies.
//!
//! A controller never owns the grid; it borrows it mutably for the duration
//! of one `step_search` call, pops at most one pending position, and may
//! mark cells visited/frontier as a side effect. The whole effect of one
//! step is pinned down by the spec function [`bfs_step_spec`], so a full
//! run is a deterministic function of the grid and the seeded source.

use crate::model::CellState;
use crate::model::Grid;
use crate::model::GridError;
use crate::model::GridPos;
use crate::model::GridView;
use vstd::prelude::*;

use std::collections::VecDeque;

verus! {

/// The outcome of one unit of search work at the model level: the pending
/// queue and grid afterwards, and whether the search reported done.
#[verifier::ext_equal]
pub ghost struct SearchStep {
    pub queue: Seq<GridPos>,
    pub grid: GridView,
    pub done: bool,
}

/// Every pending position denotes a real cell of the grid.
pub open spec fn queue_in_bounds(q: Seq<GridPos>, g: GridView) -> bool {
    forall|k: int| 0 <= k < q.len() ==> g.pos_in_bounds(q[k])
}

/// The frontier-expansion phase of one step: each neighbor is examined in
/// order; one the search has not yet touched is frontier-marked and appended
/// to the back of the queue (examined against the grid as mutated by the
/// neighbors before it).
pub open spec fn bfs_expand(q: Seq<GridPos>, g: GridView, nbrs: Seq<GridPos>) -> (Seq<
    GridPos,
>, GridView)
    decreases nbrs.len(),
{
    if nbrs.len() == 0 {
        (q, g)
    } else {
        let n = nbrs[0];
        if g.untouched_at(n.0 as int, n.1 as int) {
            bfs_expand(q.push(n), g.mark_frontier_m(n.0 as int, n.1 as int), nbrs.drop_first())
        } else {
            bfs_expand(q, g, nbrs.drop_first())
        }
    }
}

/// One unit of breadth-first search work:
/// an empty queue reports done with no mutation; popping the target clears
/// the remaining queue and reports done; popping an already-visited position
/// does nothing further; otherwise the position is marked visited and its
/// untouched neighbors are frontier-marked and enqueued.
pub open spec fn bfs_step_spec(q: Seq<GridPos>, g: GridView) -> SearchStep {
    if q.len() == 0 {
        SearchStep { queue: q, grid: g, done: true }
    } else {
        let p = q[0];
        let rest = q.drop_first();
        if g.is_target_at(p.0 as int, p.1 as int) {
            SearchStep { queue: Seq::empty(), grid: g, done: true }
        } else if g.at_pos(p).visited {
            SearchStep { queue: rest, grid: g, done: false }
        } else {
            let g1 = g.mark_visited_m(p.0 as int, p.1 as int);
            let e = bfs_expand(rest, g1, g1.neighbors_of(p.0 as int, p.1 as int));
            SearchStep { queue: e.0, grid: e.1, done: false }
        }
    }
}

/// The state of queue and grid after `n` units of search work.
pub open spec fn bfs_run(q: Seq<GridPos>, g: GridView, n: nat) -> (Seq<GridPos>, GridView)
    decreases n,
{
    if n == 0 {
        (q, g)
    } else {
        let s = bfs_step_spec(q, g);
        bfs_run(s.queue, s.grid, (n - 1) as nat)
    }
}

/// A steppable search strategy: `step_search` advances the search by exactly
/// one unit of work against a mutably borrowed grid and reports completion;
/// `reset` discards the pending queue and seeds it with a new source, after
/// validating the endpoints against the grid about to be searched.
pub trait GridSearchStepper: Sized {
    /// The queue of pending positions, front first.
    spec fn pending(&self) -> Seq<GridPos>;

    /// Advances the search by one unit of work; reports whether the search
    /// is done. Stepping a finished (empty-queue) search is a no-op, not an
    /// error.
    fn step_search(&mut self, grid: &mut Grid) -> (done: bool)
        requires
            old(grid)@.wf(),
            queue_in_bounds(old(self).pending(), old(grid)@),
        ensures
            final(grid)@.wf(),
            final(grid)@.n_rows == old(grid)@.n_rows,
            final(grid)@.n_cols == old(grid)@.n_cols,
            final(grid)@.source == old(grid)@.source,
            final(grid)@.target == old(grid)@.target,
            queue_in_bounds(final(self).pending(), final(grid)@),
            old(self).pending().len() == 0 ==> done && final(grid)@ == old(grid)@
                && final(self).pending() == old(self).pending(),
    ;

    /// Discards all pending work and seeds the queue with `source` alone.
    /// An out-of-bounds source or target is a programming error: it is
    /// rejected fast with `InvalidCoordinate` and the pending queue is left
    /// as it was, never seeded with a garbage position. The grid is only
    /// read for its bounds: `reset` never touches visited/frontier flags.
    fn reset(&mut self, grid: &Grid, source: GridPos, target: GridPos) -> (r: Result<
        (),
        GridError,
    >)
        requires
            grid@.wf(),
        ensures
            grid@.pos_in_bounds(source) && grid@.pos_in_bounds(target) ==> r is Ok
                && final(self).pending() == seq![source]
                && queue_in_bounds(final(self).pending(), grid@),
            !(grid@.pos_in_bounds(source) && grid@.pos_in_bounds(target)) ==> r == Err::<
                (),
                GridError,
            >(GridError::InvalidCoordinate) && final(self).pending() == old(self).pending(),
    ;
}

/// Breadth-first search working state: a FIFO queue of pending positions.
/// Insertion order equals visit order, which guarantees
/// shortest-hop-count exploration order from the source.
#[derive(Clone)]
pub struct BreadthFirstSearcher {
    frontier: VecDeque<GridPos>,
}

impl View for BreadthFirstSearcher {
    type V = Seq<GridPos>;

    closed spec fn view(&self) -> Seq<GridPos> {
        self.frontier@
    }
}

impl BreadthFirstSearcher {
    /// A searcher in the idle state: nothing pending, so `step_search`
    /// reports done until `reset` seeds it.
    pub fn new() -> (r: BreadthFirstSearcher)
        ensures
            r@ == Seq::<GridPos>::empty(),
    {
        BreadthFirstSearcher { frontier: VecDeque::new() }
    }

    /// The pending queue as a vector, front first.
    pub fn pending_positions(&self) -> (r: Vec<GridPos>)
        ensures
            r@ == self@,
    {
        let mut v: Vec<GridPos> = Vec::new();
        let n = self.frontier.len();
        let mut i: usize = 0;
        while i < n
            invariant
                i <= n,
                n == self@.len(),
                v@.len() == i,
                forall|k: int| 0 <= k < i ==> v@[k] == self@[k],
            decreases n - i,
        {
            v.push(self.frontier[i]);
            i = i + 1;
        }
        proof {
            assert(v@ =~= self@);
        }
        v
    }

    /// Examines `nbrs[i..]` in order, frontier-marking and enqueueing each
    /// position the search has not yet touched; exactly the expansion phase
    /// [`bfs_expand`] describes.
    fn expand(&mut self, grid: &mut Grid, nbrs: &Vec<GridPos>, i: usize)
        requires
            old(grid)@.wf(),
            i <= nbrs@.len(),
            forall|k: int| 0 <= k < nbrs@.len() ==> old(grid)@.pos_in_bounds(nbrs@[k]),
        ensures
            final(self)@ == bfs_expand(old(self)@, old(grid)@, nbrs@.skip(i as int)).0,
            final(grid)@ == bfs_expand(old(self)@, old(grid)@, nbrs@.skip(i as int)).1,
        decreases nbrs@.len() - i,
    {
        if i < nbrs.len() {
            let (nr, nc) = nbrs[i];
            if grid.is_untouched(nr, nc) {
                grid.mark_frontier(nr, nc);
                self.frontier.push_back((nr, nc));
            }
            proof {
                assert(nbrs@.skip(i as int)[0] == nbrs@[i as int]);
                assert(nbrs@.skip(i as int).drop_first() =~= nbrs@.skip(i as int + 1));
            }
            self.expand(grid, nbrs, i + 1);
        } else {
            proof {
                assert(nbrs@.skip(i as int) =~= Seq::<GridPos>::empty());
            }
        }
    }
}

/// Establishes what one expansion phase preserves: well-formedness,
/// dimensions, the source/target designations, in-bounds queues (the queue
/// only grows by in-bounds neighbors, behind the preserved prefix), and
/// every per-cell flag except frontier marks.
pub proof fn lemma_bfs_expand_props(q: Seq<GridPos>, g: GridView, nbrs: Seq<GridPos>)
    requires
        g.wf(),
        forall|k: int| 0 <= k < nbrs.len() ==> g.pos_in_bounds(nbrs[k]),
    ensures
        bfs_expand(q, g, nbrs).1.wf(),
        bfs_expand(q, g, nbrs).1.n_rows == g.n_rows,
        bfs_expand(q, g, nbrs).1.n_cols == g.n_cols,
        bfs_expand(q, g, nbrs).1.source == g.source,
        bfs_expand(q, g, nbrs).1.target == g.target,
        bfs_expand(q, g, nbrs).1.cells.len() == g.cells.len(),
        queue_in_bounds(q, g) ==> queue_in_bounds(bfs_expand(q, g, nbrs).0, bfs_expand(
            q,
            g,
            nbrs,
        ).1),
        bfs_expand(q, g, nbrs).0.len() >= q.len(),
        forall|k: int| 0 <= k < q.len() ==> bfs_expand(q, g, nbrs).0[k] == q[k],
        forall|j: int|
            0 <= j < g.cells.len() ==> {
                let c1 = #[trigger] g.cells[j];
                let c2 = bfs_expand(q, g, nbrs).1.cells[j];
                c2.wall == c1.wall && c2.visited == c1.visited && c2.from_up == c1.from_up
                    && c2.from_down == c1.from_down && c2.from_left == c1.from_left
                    && c2.from_right == c1.from_right
            },
    decreases nbrs.len(),
{
    if nbrs.len() > 0 {
        let n = nbrs[0];
        assert(g.pos_in_bounds(n));
        crate::model::lemma_idx_bounds(g, n.0 as int, n.1 as int);
        let touched = !g.untouched_at(n.0 as int, n.1 as int);
        let q1 = if touched {
            q
        } else {
            q.push(n)
        };
        let g1 = if touched {
            g
        } else {
            g.mark_frontier_m(n.0 as int, n.1 as int)
        };
        assert(g1.cells.len() == g.cells.len());
        assert(g1.n_rows == g.n_rows && g1.n_cols == g.n_cols);
        assert(g1.wf());
        assert(forall|k: int|
            0 <= k < nbrs.drop_first().len() ==> g1.pos_in_bounds(#[trigger] nbrs.drop_first()[k]));
        lemma_bfs_expand_props(q1, g1, nbrs.drop_first());
        let e = bfs_expand(q, g, nbrs);
        assert(e == bfs_expand(q1, g1, nbrs.drop_first()));
        assert forall|k: int| 0 <= k < q.len() implies e.0[k] == q[k] by {
            assert(e.0[k] == q1[k]);
        }
        assert forall|j: int|
            0 <= j < g.cells.len() implies {
                let c1 = #[trigger] g.cells[j];
                let c2 = e.1.cells[j];
                c2.wall == c1.wall && c2.visited == c1.visited && c2.from_up == c1.from_up
                    && c2.from_down == c1.from_down && c2.from_left == c1.from_left
                    && c2.from_right == c1.from_right
            } by {
            if !touched && j == g.idx(n.0 as int, n.1 as int) {
                assert(g1.cells[j] == g.cells[j].with_flags(CellState::FRONTIER));
            } else {
                assert(g1.cells[j] == g.cells[j]);
            }
        }
        if queue_in_bounds(q, g) {
            assert(queue_in_bounds(q1, g1));
        }
    }
}

impl GridSearchStepper for BreadthFirstSearcher {
    open spec fn pending(&self) -> Seq<GridPos> {
        self@
    }

    fn step_search(&mut self, grid: &mut Grid) -> (done: bool)
        ensures
            final(self)@ == bfs_step_spec(old(self)@, old(grid)@).queue,
            final(grid)@ == bfs_step_spec(old(self)@, old(grid)@).grid,
            done == bfs_step_spec(old(self)@, old(grid)@).done,
    {
        let popped = self.frontier.pop_front();
        match popped {
            None => true,
            Some((row, col)) => {
                proof {
                    assert(old(self)@[0] == (row, col));
                    assert(self@ =~= old(self)@.drop_first());
                }
                if grid.is_target(row, col) {
                    self.frontier.clear();
                    true
                } else if grid.is_visited(row, col) {
                    false
                } else {
                    grid.mark_visited(row, col);
                    let nbrs = grid.neighbors(row, col);
                    self.expand(grid, &nbrs, 0);
                    proof {
                        let g1 = old(grid)@.mark_visited_m(row as int, col as int);
                        assert(nbrs@.skip(0) =~= nbrs@);
                        lemma_bfs_expand_props(
                            old(self)@.drop_first(),
                            g1,
                            g1.neighbors_of(row as int, col as int),
                        );
                        assert(queue_in_bounds(old(self)@.drop_first(), g1));
                    }
                    false
                }
            },
        }
    }

    fn reset(&mut self, grid: &Grid, source: GridPos, target: GridPos) -> (r: Result<
        (),
        GridError,
    >) {
        let rows = grid.rows();
        let cols = grid.cols();
        if source.0 < rows && source.1 < cols && target.0 < rows && target.1 < cols {
            self.frontier.clear();
            self.frontier.push_front(source);
            proof {
                assert(self@ =~= seq![source]);
            }
            Ok(())
        } else {
            Err(GridError::InvalidCoordinate)
        }
    }
}

/// The closed set of selectable search strategies; breadth-first search is
/// the sole variant for now, and adding a strategy later means adding a
/// variant, not changing callers.
#[derive(Clone)]
pub enum DynamicGridSearcher {
    BreadthFirst(BreadthFirstSearcher),
}

impl GridSearchStepper for DynamicGridSearcher {
    open spec fn pending(&self) -> Seq<GridPos> {
        match self {
            DynamicGridSearcher::BreadthFirst(d) => d@,
        }
    }

    fn step_search(&mut self, grid: &mut Grid) -> (done: bool)
        ensures
            final(self).pending() == bfs_step_spec(old(self).pending(), old(grid)@).queue,
            final(grid)@ == bfs_step_spec(old(self).pending(), old(grid)@).grid,
            done == bfs_step_spec(old(self).pending(), old(grid)@).done,
    {
        match self {
            DynamicGridSearcher::BreadthFirst(d) => d.step_search(grid),
        }
    }

    fn reset(&mut self, grid: &Grid, source: GridPos, target: GridPos) -> (r: Result<
        (),
        GridError,
    >) {
        match self {
            DynamicGridSearcher::BreadthFirst(d) => d.reset(grid, source, target),
        }
    }
}

impl From<BreadthFirstSearcher> for DynamicGridSearcher {
    fn from(delegate: BreadthFirstSearcher) -> (r: DynamicGridSearcher) {
        DynamicGridSearcher::BreadthFirst(delegate)
    }
}

impl vstd::std_specs::convert::FromSpecImpl<BreadthFirstSearcher> for DynamicGridSearcher {
    open spec fn obeys_from_spec() -> bool {
        true
    }

    open spec fn from_spec(delegate: BreadthFirstSearcher) -> DynamicGridSearcher {
        DynamicGridSearcher::BreadthFirst(delegate)
    }
}

} // verus!
