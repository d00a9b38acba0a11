//! The grid data model: a 2-D cell matrix with compact per-cell flags,
//! designated source/target cells, and the queries and mutators used by the
//! search controller and by rendering code.

use vstd::prelude::*;

verus! {

/// A grid position as (row, column).
pub type GridPos = (usize, usize);

/// Per-cell state: occupancy and search-progress flags, plus the four
/// directional-origin bits that record which neighbor an expansion came from
/// (used to draw path-direction arrows).
#[derive(Clone, Copy, PartialEq, Eq, Structural, Debug)]
pub struct CellInfo {
    pub wall: bool,
    pub frontier: bool,
    pub visited: bool,
    pub from_up: bool,
    pub from_down: bool,
    pub from_left: bool,
    pub from_right: bool,
}

impl CellInfo {
    /// The all-clear cell: no flags, no origin bits.
    pub open spec fn spec_empty() -> CellInfo {
        CellInfo {
            wall: false,
            frontier: false,
            visited: false,
            from_up: false,
            from_down: false,
            from_left: false,
            from_right: false,
        }
    }

    pub fn empty() -> (r: CellInfo)
        ensures
            r == CellInfo::spec_empty(),
    {
        CellInfo {
            wall: false,
            frontier: false,
            visited: false,
            from_up: false,
            from_down: false,
            from_left: false,
            from_right: false,
        }
    }

    /// The cell with its WALL/FRONTIER/VISITED flags overwritten to reflect
    /// exactly one of OPEN, WALL, VISITED, FRONTIER; origin bits kept.
    pub open spec fn with_flags(self, state: CellState) -> CellInfo {
        CellInfo {
            wall: state is WALL,
            frontier: state is FRONTIER,
            visited: state is VISITED,
            ..self
        }
    }

    /// The cell with only its wall flag replaced; search progress and
    /// origin bits kept.
    pub open spec fn with_wall(self, wall: bool) -> CellInfo {
        CellInfo { wall, ..self }
    }

    /// A cell the search has not yet touched: not a wall, not visited,
    /// not frontier-marked.
    pub open spec fn spec_untouched(self) -> bool {
        !self.wall && !self.visited && !self.frontier
    }

    /// Row offset toward the cell this one was expanded from.
    pub open spec fn spec_origin_dr(self) -> int {
        if self.from_up {
            -1
        } else if self.from_down {
            1
        } else {
            0
        }
    }

    /// Column offset toward the cell this one was expanded from.
    pub open spec fn spec_origin_dc(self) -> int {
        if self.from_left {
            -1
        } else if self.from_right {
            1
        } else {
            0
        }
    }

    /// The (row, column) offset encoded by the directional-origin bits.
    pub fn origin_offset(&self) -> (r: (i64, i64))
        ensures
            r.0 == self.spec_origin_dr(),
            r.1 == self.spec_origin_dc(),
    {
        let dr: i64 = if self.from_up {
            -1
        } else if self.from_down {
            1
        } else {
            0
        };
        let dc: i64 = if self.from_left {
            -1
        } else if self.from_right {
            1
        } else {
            0
        };
        (dr, dc)
    }
}

/// How a cell is classified for display, in strict priority order
/// TARGET > SOURCE > WALL > VISITED > FRONTIER > OPEN.
#[derive(Clone, Copy, PartialEq, Eq, Structural, Debug)]
pub enum CellState {
    OPEN,
    WALL,
    FRONTIER,
    VISITED,
    SOURCE,
    TARGET,
}

/// The errors a grid operation can report.
#[derive(Clone, Copy, PartialEq, Eq, Structural, Debug)]
pub enum GridError {
    /// A row/column pair lies outside the grid.
    InvalidCoordinate,
}

/// The mathematical model of a [`Grid`]: dimensions, the row-major cell
/// sequence, and the source/target cell indices (`None` when unset).
#[verifier::ext_equal]
pub ghost struct GridView {
    pub n_rows: int,
    pub n_cols: int,
    pub cells: Seq<CellInfo>,
    pub source: Option<int>,
    pub target: Option<int>,
}

impl GridView {
    /// Number of cells a well-formed grid of these dimensions holds.
    pub open spec fn cell_count(self) -> int {
        self.n_rows * self.n_cols
    }

    /// Row-major index of a position.
    pub open spec fn idx(self, row: int, col: int) -> int {
        row * self.n_cols + col
    }

    pub open spec fn in_bounds(self, row: int, col: int) -> bool {
        0 <= row < self.n_rows && 0 <= col < self.n_cols
    }

    pub open spec fn pos_in_bounds(self, p: GridPos) -> bool {
        self.in_bounds(p.0 as int, p.1 as int)
    }

    /// Well-formedness: at least one row and column, a cell for every
    /// position, and source/target (when set) denoting real cells.
    pub open spec fn wf(self) -> bool {
        &&& 1 <= self.n_rows
        &&& 1 <= self.n_cols
        &&& self.n_rows * self.n_cols <= usize::MAX
        &&& self.cells.len() == self.n_rows * self.n_cols
        &&& (self.source matches Some(i) ==> 0 <= i < self.cells.len())
        &&& (self.target matches Some(i) ==> 0 <= i < self.cells.len())
    }

    pub open spec fn at(self, row: int, col: int) -> CellInfo {
        self.cells[self.idx(row, col)]
    }

    pub open spec fn at_pos(self, p: GridPos) -> CellInfo {
        self.at(p.0 as int, p.1 as int)
    }

    pub open spec fn is_source_at(self, row: int, col: int) -> bool {
        self.source == Some(self.idx(row, col))
    }

    pub open spec fn is_target_at(self, row: int, col: int) -> bool {
        self.target == Some(self.idx(row, col))
    }

    /// Whether the search has not yet touched the cell at this position.
    pub open spec fn untouched_at(self, row: int, col: int) -> bool {
        self.at(row, col).spec_untouched()
    }

    /// The grid with one cell replaced.
    pub open spec fn with_cell(self, row: int, col: int, cell: CellInfo) -> GridView {
        GridView { cells: self.cells.update(self.idx(row, col), cell), ..self }
    }

    /// The effect of `set_state`: one of OPEN/WALL/VISITED/FRONTIER
    /// overwrites the cell's flags (origin bits kept); SOURCE/TARGET only
    /// redesignate the distinguished cell, leaving all flags alone.
    pub open spec fn set_state_m(self, row: int, col: int, state: CellState) -> GridView {
        match state {
            CellState::SOURCE => GridView { source: Some(self.idx(row, col)), ..self },
            CellState::TARGET => GridView { target: Some(self.idx(row, col)), ..self },
            _ => self.with_cell(row, col, self.at(row, col).with_flags(state)),
        }
    }

    pub open spec fn mark_visited_m(self, row: int, col: int) -> GridView {
        self.set_state_m(row, col, CellState::VISITED)
    }

    pub open spec fn mark_frontier_m(self, row: int, col: int) -> GridView {
        self.set_state_m(row, col, CellState::FRONTIER)
    }

    /// The effect of `set_origin`: the target cell's four origin bits are
    /// overwritten to point back toward `source`.
    pub open spec fn set_origin_m(self, source: GridPos, target: GridPos) -> GridView {
        let cell = self.at_pos(target);
        self.with_cell(
            target.0 as int,
            target.1 as int,
            CellInfo {
                from_up: source.0 < target.0,
                from_down: source.0 > target.0,
                from_left: source.1 < target.1,
                from_right: source.1 > target.1,
                ..cell
            },
        )
    }

    /// The up-to-4 orthogonally adjacent in-bounds positions, in the fixed
    /// order up, left, right, down.
    pub open spec fn neighbors_of(self, row: int, col: int) -> Seq<GridPos> {
        let up: Seq<GridPos> = if row > 0 {
            seq![(((row - 1) as usize, col as usize))]
        } else {
            Seq::empty()
        };
        let left: Seq<GridPos> = if col > 0 {
            seq![((row as usize, (col - 1) as usize))]
        } else {
            Seq::empty()
        };
        let right: Seq<GridPos> = if col + 1 < self.n_cols {
            seq![((row as usize, (col + 1) as usize))]
        } else {
            Seq::empty()
        };
        let down: Seq<GridPos> = if row + 1 < self.n_rows {
            seq![(((row + 1) as usize, col as usize))]
        } else {
            Seq::empty()
        };
        up + left + right + down
    }

    /// Classification in strict priority order:
    /// TARGET > SOURCE > WALL > VISITED > FRONTIER > OPEN.
    pub open spec fn classify(self, row: int, col: int) -> CellState {
        if self.is_target_at(row, col) {
            CellState::TARGET
        } else if self.is_source_at(row, col) {
            CellState::SOURCE
        } else if self.at(row, col).wall {
            CellState::WALL
        } else if self.at(row, col).visited {
            CellState::VISITED
        } else if self.at(row, col).frontier {
            CellState::FRONTIER
        } else {
            CellState::OPEN
        }
    }
}

/// Whether two positions are orthogonally adjacent (4-connectivity).
pub open spec fn pos_adjacent(a: GridPos, b: GridPos) -> bool {
    ||| (a.0 + 1 == b.0 && a.1 == b.1)
    ||| (b.0 + 1 == a.0 && a.1 == b.1)
    ||| (a.1 + 1 == b.1 && a.0 == b.0)
    ||| (b.1 + 1 == a.1 && a.0 == b.0)
}

/// Every entry of `neighbors_of` is an in-bounds position orthogonally
/// adjacent to the queried cell.
pub proof fn lemma_neighbors_of_props(g: GridView, p: GridPos)
    requires
        g.wf(),
        g.pos_in_bounds(p),
    ensures
        forall|k: int|
            0 <= k < g.neighbors_of(p.0 as int, p.1 as int).len() ==> g.pos_in_bounds(
                #[trigger] g.neighbors_of(p.0 as int, p.1 as int)[k],
            ) && pos_adjacent(p, g.neighbors_of(p.0 as int, p.1 as int)[k]),
{
    let row = p.0 as int;
    let col = p.1 as int;
    assert(g.n_rows <= usize::MAX && g.n_cols <= usize::MAX) by (nonlinear_arith)
        requires
            1 <= g.n_rows,
            1 <= g.n_cols,
            g.n_rows * g.n_cols <= usize::MAX,
    {}
    let s = g.neighbors_of(row, col);
    let up: Seq<GridPos> = if row > 0 {
        seq![(((row - 1) as usize, col as usize))]
    } else {
        Seq::empty()
    };
    let left: Seq<GridPos> = if col > 0 {
        seq![((row as usize, (col - 1) as usize))]
    } else {
        Seq::empty()
    };
    let right: Seq<GridPos> = if col + 1 < g.n_cols {
        seq![((row as usize, (col + 1) as usize))]
    } else {
        Seq::empty()
    };
    let down: Seq<GridPos> = if row + 1 < g.n_rows {
        seq![(((row + 1) as usize, col as usize))]
    } else {
        Seq::empty()
    };
    assert(s =~= up + left + right + down);
    let l1 = up.len() as int;
    let l2 = l1 + left.len();
    let l3 = l2 + right.len();
    assert forall|k: int|
        0 <= k < s.len() implies g.pos_in_bounds(#[trigger] s[k]) && pos_adjacent(p, s[k]) by {
        if k < l1 {
            assert(s[k] == up[k]);
        } else if k < l2 {
            assert(s[k] == left[k - l1]);
        } else if k < l3 {
            assert(s[k] == right[k - l2]);
        } else {
            assert(s[k] == down[k - l3]);
        }
    }
}

/// The row-major index of an in-bounds position always denotes a real cell.
pub proof fn lemma_idx_bounds(g: GridView, row: int, col: int)
    requires
        g.wf(),
        g.in_bounds(row, col),
    ensures
        0 <= g.idx(row, col) < g.cells.len(),
{
    assert(0 <= row * g.n_cols + col < g.n_rows * g.n_cols) by (nonlinear_arith)
        requires
            0 <= row < g.n_rows,
            0 <= col < g.n_cols,
    {}
}

/// Distinct in-bounds positions have distinct row-major indices.
pub proof fn lemma_idx_injective(g: GridView, r1: int, c1: int, r2: int, c2: int)
    requires
        g.wf(),
        g.in_bounds(r1, c1),
        g.in_bounds(r2, c2),
        g.idx(r1, c1) == g.idx(r2, c2),
    ensures
        r1 == r2 && c1 == c2,
{
    assert(r1 == r2 && c1 == c2) by (nonlinear_arith)
        requires
            0 <= r1 < g.n_rows,
            0 <= c1 < g.n_cols,
            0 <= r2 < g.n_rows,
            0 <= c2 < g.n_cols,
            r1 * g.n_cols + c1 == r2 * g.n_cols + c2,
    {}
}

/// A 2-D occupancy grid: per-cell flags in row-major order, plus the
/// designated source and target cells.
///
/// All coordinate-taking operations expect in-bounds coordinates as a
/// precondition, except [`Grid::set_source`] and [`Grid::set_target`], which
/// reject out-of-bounds coordinates with [`GridError::InvalidCoordinate`]
/// so the source/target invariants can never be corrupted.
#[derive(Clone, PartialEq)]
pub struct Grid {
    pub n_rows: usize,
    pub n_cols: usize,
    cells: Vec<CellInfo>,
    source_idx: usize,
    target_idx: usize,
}

impl View for Grid {
    type V = GridView;

    closed spec fn view(&self) -> GridView {
        GridView {
            n_rows: self.n_rows as int,
            n_cols: self.n_cols as int,
            cells: self.cells@,
            source: if self.source_idx == usize::MAX {
                None
            } else {
                Some(self.source_idx as int)
            },
            target: if self.target_idx == usize::MAX {
                None
            } else {
                Some(self.target_idx as int)
            },
        }
    }
}

impl Grid {
    /// The number of rows, as the view knows it, so a caller's runtime
    /// bounds checks discharge the in-bounds preconditions.
    pub fn rows(&self) -> (r: usize)
        ensures
            r == self@.n_rows,
    {
        self.n_rows
    }

    /// The number of columns, as the view knows it.
    pub fn cols(&self) -> (r: usize)
        ensures
            r == self@.n_cols,
    {
        self.n_cols
    }

    /// A grid with every cell clear and source/target unset.
    pub fn empty(n_rows: usize, n_cols: usize) -> (r: Grid)
        requires
            1 <= n_rows,
            1 <= n_cols,
            n_rows * n_cols <= usize::MAX,
        ensures
            r@.wf(),
            r@.n_rows == n_rows,
            r@.n_cols == n_cols,
            forall|j: int| 0 <= j < r@.cells.len() ==> r@.cells[j] == CellInfo::spec_empty(),
            r@.source is None,
            r@.target is None,
    {
        let n = n_rows * n_cols;
        let mut cells: Vec<CellInfo> = Vec::new();
        let mut i: usize = 0;
        while i < n
            invariant
                i <= n,
                cells@.len() == i,
                forall|j: int| 0 <= j < i ==> cells@[j] == CellInfo::spec_empty(),
            decreases n - i,
        {
            cells.push(CellInfo::empty());
            i = i + 1;
        }
        Grid { n_rows, n_cols, cells, source_idx: usize::MAX, target_idx: usize::MAX }
    }

    /// The row-major index of an in-bounds position; always a real cell index.
    fn rc_to_idx(&self, row: usize, col: usize) -> (r: usize)
        requires
            self@.wf(),
            self@.in_bounds(row as int, col as int),
        ensures
            r == self@.idx(row as int, col as int),
            r < self@.cells.len(),
    {
        proof {
            assert(row * self.n_cols + col < self.n_rows * self.n_cols) by (nonlinear_arith)
                requires
                    0 <= row < self.n_rows,
                    0 <= col < self.n_cols,
            {}
        }
        row * self.n_cols + col
    }

    /// The position of an in-range row-major index.
    fn idx_to_rc(&self, idx: usize) -> (r: GridPos)
        requires
            self@.wf(),
            0 <= idx < self@.cells.len(),
        ensures
            r.0 == idx as int / self@.n_cols,
            r.1 == idx as int % self@.n_cols,
            self@.pos_in_bounds(r),
            self@.idx(r.0 as int, r.1 as int) == idx,
    {
        proof {
            assert(idx / self.n_cols < self.n_rows && (idx / self.n_cols) * self.n_cols + idx
                % self.n_cols == idx) by (nonlinear_arith)
                requires
                    1 <= self.n_cols,
                    0 <= idx < self.n_rows * self.n_cols,
            {}
        }
        (idx / self.n_cols, idx % self.n_cols)
    }

    /// Classifies one cell per the display priority order.
    pub fn cell_state(&self, row: usize, col: usize) -> (r: CellState)
        requires
            self@.wf(),
            self@.in_bounds(row as int, col as int),
        ensures
            r == self@.classify(row as int, col as int),
    {
        let idx = self.rc_to_idx(row, col);
        if idx == self.target_idx {
            CellState::TARGET
        } else if idx == self.source_idx {
            CellState::SOURCE
        } else if self.cells[idx].wall {
            CellState::WALL
        } else if self.cells[idx].visited {
            CellState::VISITED
        } else if self.cells[idx].frontier {
            CellState::FRONTIER
        } else {
            CellState::OPEN
        }
    }

    pub fn is_wall(&self, row: usize, col: usize) -> (r: bool)
        requires
            self@.wf(),
            self@.in_bounds(row as int, col as int),
        ensures
            r == self@.at(row as int, col as int).wall,
    {
        self.cells[self.rc_to_idx(row, col)].wall
    }

    pub fn is_visited(&self, row: usize, col: usize) -> (r: bool)
        requires
            self@.wf(),
            self@.in_bounds(row as int, col as int),
        ensures
            r == self@.at(row as int, col as int).visited,
    {
        self.cells[self.rc_to_idx(row, col)].visited
    }

    pub fn is_frontier(&self, row: usize, col: usize) -> (r: bool)
        requires
            self@.wf(),
            self@.in_bounds(row as int, col as int),
        ensures
            r == self@.at(row as int, col as int).frontier,
    {
        self.cells[self.rc_to_idx(row, col)].frontier
    }

    pub fn is_source(&self, row: usize, col: usize) -> (r: bool)
        requires
            self@.wf(),
            self@.in_bounds(row as int, col as int),
        ensures
            r == self@.is_source_at(row as int, col as int),
    {
        self.source_idx == self.rc_to_idx(row, col)
    }

    pub fn is_target(&self, row: usize, col: usize) -> (r: bool)
        requires
            self@.wf(),
            self@.in_bounds(row as int, col as int),
        ensures
            r == self@.is_target_at(row as int, col as int),
    {
        self.target_idx == self.rc_to_idx(row, col)
    }

    /// Overwrites one cell's WALL/VISITED/FRONTIER flags to reflect exactly
    /// one of OPEN, WALL, VISITED, FRONTIER; for SOURCE or TARGET, instead
    /// redesignates the distinguished cell and leaves every flag alone
    /// (source/target is an overlay, not a flag-exclusive state).
    ///
    /// Directional-origin bits are deliberately never cleared here, so a
    /// path can still be drawn through cells whose state changed later.
    pub fn set_state(&mut self, row: usize, col: usize, state: CellState)
        requires
            old(self)@.wf(),
            old(self)@.in_bounds(row as int, col as int),
        ensures
            final(self)@.wf(),
            final(self)@ == old(self)@.set_state_m(row as int, col as int, state),
    {
        let idx = self.rc_to_idx(row, col);
        if state == CellState::SOURCE {
            self.source_idx = idx;
        } else if state == CellState::TARGET {
            self.target_idx = idx;
        } else {
            let cell = self.cells[idx];
            self.cells.set(
                idx,
                CellInfo {
                    wall: state == CellState::WALL,
                    frontier: state == CellState::FRONTIER,
                    visited: state == CellState::VISITED,
                    ..cell
                },
            );
            proof {
                assert(self@ =~= old(self)@.set_state_m(row as int, col as int, state));
            }
        }
    }

    /// Sets or clears the wall flag of one cell (clearing visited/frontier
    /// either way).
    pub fn set_wall(&mut self, row: usize, col: usize, is_wall: bool)
        requires
            old(self)@.wf(),
            old(self)@.in_bounds(row as int, col as int),
        ensures
            final(self)@.wf(),
            final(self)@ == old(self)@.set_state_m(
                row as int,
                col as int,
                if is_wall {
                    CellState::WALL
                } else {
                    CellState::OPEN
                },
            ),
    {
        self.set_state(row, col, if is_wall { CellState::WALL } else { CellState::OPEN })
    }

    pub fn mark_visited(&mut self, row: usize, col: usize)
        requires
            old(self)@.wf(),
            old(self)@.in_bounds(row as int, col as int),
        ensures
            final(self)@.wf(),
            final(self)@ == old(self)@.mark_visited_m(row as int, col as int),
    {
        self.set_state(row, col, CellState::VISITED)
    }

    pub fn mark_frontier(&mut self, row: usize, col: usize)
        requires
            old(self)@.wf(),
            old(self)@.in_bounds(row as int, col as int),
        ensures
            final(self)@.wf(),
            final(self)@ == old(self)@.mark_frontier_m(row as int, col as int),
    {
        self.set_state(row, col, CellState::FRONTIER)
    }

    /// Designates the source cell; rejects out-of-bounds coordinates so the
    /// source index can never be corrupted.
    pub fn set_source(&mut self, row: usize, col: usize) -> (r: Result<(), GridError>)
        requires
            old(self)@.wf(),
        ensures
            final(self)@.wf(),
            old(self)@.in_bounds(row as int, col as int) ==> r is Ok && final(self)@ == old(
                self,
            )@.set_state_m(row as int, col as int, CellState::SOURCE),
            !old(self)@.in_bounds(row as int, col as int) ==> r == Err::<(), GridError>(
                GridError::InvalidCoordinate,
            ) && final(self)@ == old(self)@,
    {
        if row < self.n_rows && col < self.n_cols {
            let idx = self.rc_to_idx(row, col);
            self.source_idx = idx;
            Ok(())
        } else {
            Err(GridError::InvalidCoordinate)
        }
    }

    /// Designates the target cell; rejects out-of-bounds coordinates so the
    /// target index can never be corrupted.
    pub fn set_target(&mut self, row: usize, col: usize) -> (r: Result<(), GridError>)
        requires
            old(self)@.wf(),
        ensures
            final(self)@.wf(),
            old(self)@.in_bounds(row as int, col as int) ==> r is Ok && final(self)@ == old(
                self,
            )@.set_state_m(row as int, col as int, CellState::TARGET),
            !old(self)@.in_bounds(row as int, col as int) ==> r == Err::<(), GridError>(
                GridError::InvalidCoordinate,
            ) && final(self)@ == old(self)@,
    {
        if row < self.n_rows && col < self.n_cols {
            let idx = self.rc_to_idx(row, col);
            self.target_idx = idx;
            Ok(())
        } else {
            Err(GridError::InvalidCoordinate)
        }
    }

    /// Clears every cell's flags and origin bits; dimensions and the
    /// source/target designations are kept.
    pub fn clear(&mut self)
        requires
            old(self)@.wf(),
        ensures
            final(self)@.wf(),
            final(self)@.n_rows == old(self)@.n_rows,
            final(self)@.n_cols == old(self)@.n_cols,
            final(self)@.source == old(self)@.source,
            final(self)@.target == old(self)@.target,
            final(self)@.cells.len() == old(self)@.cells.len(),
            forall|j: int|
                0 <= j < final(self)@.cells.len() ==> final(self)@.cells[j]
                    == CellInfo::spec_empty(),
    {
        let ghost g0 = self@;
        let n = self.cells.len();
        let mut i: usize = 0;
        while i < n
            invariant
                i <= n,
                self@.n_rows == g0.n_rows,
                self@.n_cols == g0.n_cols,
                self@.source == g0.source,
                self@.target == g0.target,
                self@.cells.len() == n,
                forall|j: int| 0 <= j < i ==> self@.cells[j] == CellInfo::spec_empty(),
            decreases n - i,
        {
            self.cells.set(i, CellInfo::empty());
            i = i + 1;
        }
    }

    /// Sets WALL for every cell in row-major order exactly where `walls`
    /// holds true (and clears it elsewhere); visited/frontier flags, origin
    /// bits and the source/target designations are untouched, so callers
    /// that want a full reset rebuild from `empty` first.
    pub fn regenerate(&mut self, walls: &Vec<bool>)
        requires
            old(self)@.wf(),
            walls@.len() == old(self)@.cells.len(),
        ensures
            final(self)@.wf(),
            final(self)@.n_rows == old(self)@.n_rows,
            final(self)@.n_cols == old(self)@.n_cols,
            final(self)@.source == old(self)@.source,
            final(self)@.target == old(self)@.target,
            final(self)@.cells.len() == old(self)@.cells.len(),
            forall|j: int|
                0 <= j < final(self)@.cells.len() ==> final(self)@.cells[j] == old(
                    self,
                )@.cells[j].with_wall(walls@[j]),
    {
        let ghost g0 = self@;
        let n = self.cells.len();
        let mut i: usize = 0;
        while i < n
            invariant
                i <= n,
                self@.wf(),
                self@.n_rows == g0.n_rows,
                self@.n_cols == g0.n_cols,
                self@.source == g0.source,
                self@.target == g0.target,
                self@.cells.len() == n,
                g0.cells.len() == n,
                walls@.len() == n,
                forall|j: int| 0 <= j < i ==> self@.cells[j] == g0.cells[j].with_wall(walls@[j]),
                forall|j: int| i <= j < n ==> self@.cells[j] == g0.cells[j],
            decreases n - i,
        {
            let cell = self.cells[i];
            self.cells.set(
                i,
                CellInfo {
                    wall: walls[i],
                    frontier: cell.frontier,
                    visited: cell.visited,
                    from_up: cell.from_up,
                    from_down: cell.from_down,
                    from_left: cell.from_left,
                    from_right: cell.from_right,
                },
            );
            i = i + 1;
        }
    }

    /// Records on the `target` cell which of the four directions `source`
    /// lies relative to it (at most one horizontal and one vertical bit).
    pub fn set_origin(&mut self, source: GridPos, target: GridPos)
        requires
            old(self)@.wf(),
            old(self)@.pos_in_bounds(target),
        ensures
            final(self)@.wf(),
            final(self)@ == old(self)@.set_origin_m(source, target),
    {
        let idx = self.rc_to_idx(target.0, target.1);
        let cell = self.cells[idx];
        self.cells.set(
            idx,
            CellInfo {
                from_up: source.0 < target.0,
                from_down: source.0 > target.0,
                from_left: source.1 < target.1,
                from_right: source.1 > target.1,
                ..cell
            },
        );
        proof {
            assert(self@ =~= old(self)@.set_origin_m(source, target));
        }
    }

    /// The up-to-4 orthogonally adjacent in-bounds positions of a cell, in
    /// the fixed order up, left, right, down (the expansion order of the
    /// search, preserved for deterministic traversal).
    pub fn neighbors(&self, row: usize, col: usize) -> (r: Vec<GridPos>)
        requires
            self@.wf(),
            self@.in_bounds(row as int, col as int),
        ensures
            r@ == self@.neighbors_of(row as int, col as int),
    {
        let mut v: Vec<GridPos> = Vec::new();
        if row > 0 {
            v.push((row - 1, col));
        }
        if col > 0 {
            v.push((row, col - 1));
        }
        if col + 1 < self.n_cols {
            v.push((row, col + 1));
        }
        if row + 1 < self.n_rows {
            v.push((row + 1, col));
        }
        proof {
            assert(v@ =~= self@.neighbors_of(row as int, col as int));
        }
        v
    }

    /// Every cell as (row, col, classification), in row-major order.
    pub fn cell_states(&self) -> (r: Vec<(usize, usize, CellState)>)
        requires
            self@.wf(),
        ensures
            r@.len() == self@.cell_count(),
            forall|j: int|
                0 <= j < r@.len() ==> r@[j] == (
                    (j / self@.n_cols) as usize,
                    (j % self@.n_cols) as usize,
                    self@.classify(j / self@.n_cols, j % self@.n_cols),
                ),
    {
        let n = self.cells.len();
        let mut v: Vec<(usize, usize, CellState)> = Vec::new();
        let mut i: usize = 0;
        while i < n
            invariant
                i <= n,
                self@.wf(),
                self@.cells.len() == n,
                v@.len() == i,
                forall|j: int|
                    0 <= j < i ==> v@[j] == (
                        (j / self@.n_cols) as usize,
                        (j % self@.n_cols) as usize,
                        self@.classify(j / self@.n_cols, j % self@.n_cols),
                    ),
            decreases n - i,
        {
            let (row, col) = self.idx_to_rc(i);
            let state = self.cell_state(row, col);
            v.push((row, col, state));
            i = i + 1;
        }
        v
    }

    /// Every cell as (row, col, origin row offset, origin column offset), in
    /// row-major order.
    pub fn cell_origins(&self) -> (r: Vec<(usize, usize, i64, i64)>)
        requires
            self@.wf(),
        ensures
            r@.len() == self@.cell_count(),
            forall|j: int|
                0 <= j < r@.len() ==> r@[j] == (
                    (j / self@.n_cols) as usize,
                    (j % self@.n_cols) as usize,
                    self@.cells[j].spec_origin_dr() as i64,
                    self@.cells[j].spec_origin_dc() as i64,
                ),
    {
        let n = self.cells.len();
        let mut v: Vec<(usize, usize, i64, i64)> = Vec::new();
        let mut i: usize = 0;
        while i < n
            invariant
                i <= n,
                self@.wf(),
                self@.cells.len() == n,
                v@.len() == i,
                forall|j: int|
                    0 <= j < i ==> v@[j] == (
                        (j / self@.n_cols) as usize,
                        (j % self@.n_cols) as usize,
                        self@.cells[j].spec_origin_dr() as i64,
                        self@.cells[j].spec_origin_dc() as i64,
                    ),
            decreases n - i,
        {
            let (row, col) = self.idx_to_rc(i);
            let (dr, dc) = self.cells[i].origin_offset();
            proof {
                assert(self@.at(row as int, col as int) == self@.cells[i as int]);
            }
            v.push((row, col, dr, dc));
            i = i + 1;
        }
        v
    }

    /// Whether the search has not yet touched this cell — the check the
    /// search controller makes before expanding the frontier into it.
    pub fn is_untouched(&self, row: usize, col: usize) -> (r: bool)
        requires
            self@.wf(),
            self@.in_bounds(row as int, col as int),
        ensures
            r == self@.untouched_at(row as int, col as int),
    {
        let idx = self.rc_to_idx(row, col);
        !self.cells[idx].wall && !self.cells[idx].visited && !self.cells[idx].frontier
    }
}

} // verus!
