//! Conway's Game of Life: the reference [`Ruleset`], and the laws the engine
//! guarantees when run under it.
//!
//! The laws are stated around one inductive invariant, [`aggregates_exact`]:
//! every stored neighbor aggregate equals the count of live cells adjacent to
//! it, as a full-grid rescan would recompute it. A fresh or cleared automaton
//! establishes the invariant, and `set_cell`, `step` and `put` each preserve
//! it, so it holds after any sequence of those calls; under it, `step`
//! provably computes the classic Game of Life transition on exact neighbor
//! counts.

use crate::automaton::{
    agg_fold, fresh, lemma_agg_fold_wf, lemma_neighbors_updated_at, lemma_put_model_wf,
    lemma_set_model_wf, put_model, set_model, step_model, stepped_cells, writes_to, AutomatonView,
    Ruleset,
};
use crate::grid::{Grid, GridView};
use vstd::prelude::*;

verus! {

broadcast use crate::grid::lemma_flat_props;

/// Conway's Game of Life ruleset.
pub struct Cgol;

/// Conway's Game of Life cell state: dead, or live with the number of
/// generations survived. The age saturates at `u8::MAX` rather than wrapping.
#[derive(Debug, Clone, Copy, PartialEq, Eq, Structural)]
pub enum CgolCell {
    Dead,
    Live(u8),
}

impl CgolCell {
    /// Flips the cell between `Dead` and newborn `Live`.
    pub fn toggle(&mut self)
        ensures
            *final(self) == match *old(self) {
                CgolCell::Dead => CgolCell::Live(0),
                CgolCell::Live(_) => CgolCell::Dead,
            },
    {
        *self = match *self {
            Self::Dead => Self::Live(0),
            Self::Live(_) => Self::Dead,
        };
    }
}

impl Default for CgolCell {
    /// A cell is dead by default.
    fn default() -> (r: Self)
        ensures
            r == CgolCell::Dead,
    {
        Self::Dead
    }
}

impl Ruleset for Cgol {
    type State = CgolCell;

    type NeighborData = u8;

    open spec fn next_spec(s: CgolCell, n: u8) -> CgolCell {
        match s {
            // Any live cell with two or three live neighbours survives, one
            // generation older
            CgolCell::Live(age) => if n == 2 || n == 3 {
                CgolCell::Live(if age < u8::MAX {
                    (age + 1) as u8
                } else {
                    u8::MAX
                })
            } else {
                // All other live cells die in the next generation
                CgolCell::Dead
            },
            // Any dead cell with three live neighbours becomes a live cell;
            // all other dead cells stay dead
            CgolCell::Dead => if n == 3 {
                CgolCell::Live(0)
            } else {
                CgolCell::Dead
            },
        }
    }

    open spec fn has_effect(prev: CgolCell, curr: CgolCell) -> bool {
        (prev is Live && curr is Dead) || (prev is Dead && curr is Live)
    }

    open spec fn effect_spec(prev: CgolCell, curr: CgolCell, n: u8) -> u8 {
        if prev is Live && curr is Dead {
            // a neighbor died: one fewer live neighbor
            if n > 0 {
                (n - 1) as u8
            } else {
                0
            }
        } else if prev is Dead && curr is Live {
            // a neighbor was born: one more live neighbor
            if n < u8::MAX {
                (n + 1) as u8
            } else {
                u8::MAX
            }
        } else {
            n
        }
    }

    fn next(s: &CgolCell, n: &u8) -> (r: CgolCell) {
        match *s {
            CgolCell::Live(age) => if *n == 2 || *n == 3 {
                CgolCell::Live(age.saturating_add(1))
            } else {
                CgolCell::Dead
            },
            CgolCell::Dead => if *n == 3 {
                CgolCell::Live(0)
            } else {
                CgolCell::Dead
            },
        }
    }

    fn update_needed(prev: &CgolCell, curr: &CgolCell) -> (r: bool) {
        match (prev, curr) {
            (CgolCell::Live(_), CgolCell::Dead) => true,
            (CgolCell::Dead, CgolCell::Live(_)) => true,
            _ => false,
        }
    }

    fn update_neighbor(prev: &CgolCell, curr: &CgolCell, n: &mut u8) {
        match (prev, curr) {
            (CgolCell::Live(_), CgolCell::Dead) => {
                *n = n.saturating_sub(1);
            },
            (CgolCell::Dead, CgolCell::Live(_)) => {
                *n = n.saturating_add(1);
            },
            _ => {},
        }
    }
}

/// Builds a Game of Life grid from a row-major slice: `0` is a dead cell,
/// any other value a newborn live cell.
pub fn from_slice(cols: usize, rows: usize, pattern: &[u8]) -> (g: Grid<CgolCell>)
    requires
        pattern@.len() == cols * rows,
    ensures
        g@.wf(),
        g@.cols == cols,
        g@.rows == rows,
        forall|i: int|
            0 <= i < g@.data.len() ==> g@.data[i] == (if pattern@[i] == 0 {
                CgolCell::Dead
            } else {
                CgolCell::Live(0)
            }),
{
    let n = pattern.len();
    let mut cells: Vec<CgolCell> = Vec::new();
    let mut i: usize = 0;
    while i < n
        invariant
            i <= n,
            n == pattern@.len(),
            cells@.len() == i,
            forall|j: int|
                0 <= j < i ==> cells@[j] == (if pattern@[j] == 0 {
                    CgolCell::Dead
                } else {
                    CgolCell::Live(0)
                }),
        decreases n - i,
    {
        if pattern[i] == 0 {
            cells.push(CgolCell::Dead);
        } else {
            cells.push(CgolCell::Live(0));
        }
        i += 1;
    }
    match Grid::from_slice(cols, rows, cells.as_slice()) {
        Ok(g) => g,
        Err(_) => vstd::pervasive::unreached(),
    }
}

/// 1 if `(c, r)` is an in-grid live cell, else 0.
pub open spec fn live_at(cells: GridView<CgolCell>, c: int, r: int) -> int {
    if cells.in_bounds(c, r) && cells.at(c, r) is Live {
        1
    } else {
        0
    }
}

/// The number of live cells among the in-grid cells adjacent to the padded
/// aggregate position `(pc, pr)`: the 3-by-3 block of cells around the
/// position's own cell `(pc - 1, pr - 1)`, without that cell itself. For the
/// padded position of a grid cell this is the exact count of live cells in
/// the cell's Moore neighborhood; for a border position it is the count of
/// live cells in the grid edge the border absorbs writes for.
pub open spec fn live_adjacent(cells: GridView<CgolCell>, pc: int, pr: int) -> int {
    live_at(cells, pc - 2, pr - 2) + live_at(cells, pc - 1, pr - 2) + live_at(cells, pc, pr - 2)
        + live_at(cells, pc - 2, pr - 1) + live_at(cells, pc, pr - 1) + live_at(
        cells,
        pc - 2,
        pr,
    ) + live_at(cells, pc - 1, pr) + live_at(cells, pc, pr)
}

/// The exact count of live cells among the up-to-8 Moore neighbors of the
/// grid cell `(col, row)`, recomputed by a full rescan of the cell grid.
pub open spec fn live_neighbors(cells: GridView<CgolCell>, col: int, row: int) -> int {
    live_adjacent(cells, col + 1, row + 1)
}

/// Every position of the aggregate grid `nd` holds the exact count of live
/// cells among the in-grid cells adjacent to it.
pub open spec fn exact_for(cells: GridView<CgolCell>, nd: GridView<u8>) -> bool {
    forall|pc: int, pr: int|
        nd.in_bounds(pc, pr) ==> (#[trigger] nd.at(pc, pr)) as int == live_adjacent(
            cells,
            pc,
            pr,
        )
}

/// The live aggregate grid of the automaton is exact for its current cells:
/// in particular, the stored aggregate of every grid cell equals the count of
/// live cells among its Moore neighbors.
pub open spec fn aggregates_exact(v: AutomatonView<CgolCell, u8>) -> bool {
    exact_for(v.cells, v.neighbor_back)
}

/// All four buffers hold nothing: every cell dead, every aggregate zero.
pub open spec fn blank(v: AutomatonView<CgolCell, u8>) -> bool {
    &&& v.cells.filled_with(CgolCell::Dead)
    &&& v.cells_back.filled_with(CgolCell::Dead)
    &&& v.neighbor_front.filled_with(0u8)
    &&& v.neighbor_back.filled_with(0u8)
}

/// A freshly constructed or cleared Game of Life automaton is blank: the
/// default cell state is `Dead` and the default aggregate is 0.
pub proof fn lemma_fresh_is_blank(v: AutomatonView<CgolCell, u8>, cols: nat, rows: nat)
    requires
        fresh::<Cgol>(v, cols, rows),
    ensures
        blank(v),
{
}

/// In a blank automaton the aggregates are (trivially) exact.
pub proof fn lemma_blank_aggregates_exact(v: AutomatonView<CgolCell, u8>)
    requires
        v.wf(),
        blank(v),
    ensures
        aggregates_exact(v),
{
    assert forall|pc: int, pr: int| v.neighbor_back.in_bounds(pc, pr) implies (
    #[trigger] v.neighbor_back.at(pc, pr)) as int == live_adjacent(v.cells, pc, pr) by {
        assert(live_at(v.cells, pc - 2, pr - 2) == 0);
        assert(live_at(v.cells, pc - 1, pr - 2) == 0);
        assert(live_at(v.cells, pc, pr - 2) == 0);
        assert(live_at(v.cells, pc - 2, pr - 1) == 0);
        assert(live_at(v.cells, pc, pr - 1) == 0);
        assert(live_at(v.cells, pc - 2, pr) == 0);
        assert(live_at(v.cells, pc - 1, pr) == 0);
        assert(live_at(v.cells, pc, pr) == 0);
    }
}

/// How a single-cell write shifts the adjacent-live count of each padded
/// position: positions the cell is adjacent to move by the difference of the
/// two states' liveness; all others keep their count.
proof fn lemma_live_adjacent_update(
    cells: GridView<CgolCell>,
    col: int,
    row: int,
    s: CgolCell,
    pc: int,
    pr: int,
)
    requires
        cells.wf(),
        cells.in_bounds(col, row),
    ensures
        live_adjacent(cells.update(col, row, s), pc, pr) == live_adjacent(cells, pc, pr) + (
        if writes_to(col, row, pc, pr) {
            (if s is Live {
                1int
            } else {
                0int
            }) - (if cells.at(col, row) is Live {
                1int
            } else {
                0int
            })
        } else {
            0int
        }),
{
}

/// `set_cell` keeps the aggregates exact: the write itself adjusts the
/// neighbors' aggregates by exactly the liveness change of the transition.
pub proof fn lemma_set_preserves_aggregates(
    v: AutomatonView<CgolCell, u8>,
    col: int,
    row: int,
    s: CgolCell,
)
    requires
        v.wf(),
        aggregates_exact(v),
        v.cells.in_bounds(col, row),
    ensures
        aggregates_exact(set_model::<Cgol>(v, col, row, s)),
{
    lemma_set_model_wf::<Cgol>(v, col, row, s);
    let v2 = set_model::<Cgol>(v, col, row, s);
    let prev = v.cells.at(col, row);
    assert forall|pc: int, pr: int| v2.neighbor_back.in_bounds(pc, pr) implies (
    #[trigger] v2.neighbor_back.at(pc, pr)) as int == live_adjacent(v2.cells, pc, pr) by {
        lemma_neighbors_updated_at::<Cgol>(v.neighbor_back, col, row, prev, s, pc, pr);
        lemma_live_adjacent_update(v.cells, col, row, s, pc, pr);
        assert(0 <= live_adjacent(v.cells, pc, pr) <= 8);
        if writes_to(col, row, pc, pr) {
            if prev is Live {
                assert(live_at(v.cells, col, row) == 1);
                assert(live_adjacent(v.cells, pc, pr) >= 1);
            } else {
                assert(live_at(v.cells, col, row) == 0);
                assert(live_adjacent(v.cells, pc, pr) <= 7);
            }
        }
    }
}

/// 1 if `(c, r)` is an in-grid cell that is live in the mixed generation
/// where the first `k` cells (row-major) have already transitioned, else 0:
/// cells before `k` count by their next state, computed from the snapshot
/// `nd0`, and the rest by their current state.
spec fn live_at_mixed(
    cells: GridView<CgolCell>,
    nd0: GridView<u8>,
    k: int,
    c: int,
    r: int,
) -> int {
    if !cells.in_bounds(c, r) {
        0
    } else if cells.flat(c, r) < k {
        if Cgol::next_spec(cells.at(c, r), nd0.at(c + 1, r + 1)) is Live {
            1
        } else {
            0
        }
    } else {
        if cells.at(c, r) is Live {
            1
        } else {
            0
        }
    }
}

/// `live_adjacent` for the mixed generation where the first `k` cells have
/// already transitioned.
spec fn live_adjacent_mixed(
    cells: GridView<CgolCell>,
    nd0: GridView<u8>,
    k: int,
    pc: int,
    pr: int,
) -> int {
    live_at_mixed(cells, nd0, k, pc - 2, pr - 2) + live_at_mixed(cells, nd0, k, pc - 1, pr - 2)
        + live_at_mixed(cells, nd0, k, pc, pr - 2) + live_at_mixed(cells, nd0, k, pc - 2, pr - 1)
        + live_at_mixed(cells, nd0, k, pc, pr - 1) + live_at_mixed(cells, nd0, k, pc - 2, pr)
        + live_at_mixed(cells, nd0, k, pc - 1, pr) + live_at_mixed(cells, nd0, k, pc, pr)
}

/// The heart of aggregate exactness across a step: as the cells transition
/// one by one in row-major order, the live aggregate grid always counts the
/// mixed generation exactly. No adjustment ever saturates, because every
/// intermediate count is a count of a real mixed neighborhood, hence between
/// 0 and 8.
proof fn lemma_agg_fold_mixed(cells: GridView<CgolCell>, nd0: GridView<u8>, k: nat)
    requires
        cells.wf(),
        nd0.wf(),
        nd0.cols == cells.cols + 2,
        nd0.rows == cells.rows + 2,
        exact_for(cells, nd0),
        k <= cells.cols * cells.rows,
    ensures
        forall|pc: int, pr: int|
            nd0.in_bounds(pc, pr) ==> (#[trigger] agg_fold::<Cgol>(cells, nd0, k).at(
                pc,
                pr,
            )) as int == live_adjacent_mixed(cells, nd0, k as int, pc, pr),
    decreases k,
{
    if k == 0 {
        assert forall|pc: int, pr: int| nd0.in_bounds(pc, pr) implies (#[trigger] agg_fold::<
            Cgol,
        >(cells, nd0, k).at(pc, pr)) as int == live_adjacent_mixed(
            cells,
            nd0,
            k as int,
            pc,
            pr,
        ) by {
            assert(live_at_mixed(cells, nd0, 0, pc - 2, pr - 2) == live_at(cells, pc - 2, pr - 2));
            assert(live_at_mixed(cells, nd0, 0, pc - 1, pr - 2) == live_at(cells, pc - 1, pr - 2));
            assert(live_at_mixed(cells, nd0, 0, pc, pr - 2) == live_at(cells, pc, pr - 2));
            assert(live_at_mixed(cells, nd0, 0, pc - 2, pr - 1) == live_at(cells, pc - 2, pr - 1));
            assert(live_at_mixed(cells, nd0, 0, pc, pr - 1) == live_at(cells, pc, pr - 1));
            assert(live_at_mixed(cells, nd0, 0, pc - 2, pr) == live_at(cells, pc - 2, pr));
            assert(live_at_mixed(cells, nd0, 0, pc - 1, pr) == live_at(cells, pc - 1, pr));
            assert(live_at_mixed(cells, nd0, 0, pc, pr) == live_at(cells, pc, pr));
        }
    } else {
        lemma_agg_fold_mixed(cells, nd0, (k - 1) as nat);
        lemma_agg_fold_wf::<Cgol>(cells, nd0, (k - 1) as nat);
        let j = (k - 1) as int;
        crate::grid::lemma_flat_decomp(cells, j);
        let c = j % cells.cols as int;
        let r = j / cells.cols as int;
        let prev = cells.at(c, r);
        let curr = Cgol::next_spec(prev, nd0.at(c + 1, r + 1));
        let acc = agg_fold::<Cgol>(cells, nd0, (k - 1) as nat);
        assert forall|pc: int, pr: int| nd0.in_bounds(pc, pr) implies (#[trigger] agg_fold::<
            Cgol,
        >(cells, nd0, k).at(pc, pr)) as int == live_adjacent_mixed(
            cells,
            nd0,
            k as int,
            pc,
            pr,
        ) by {
            lemma_neighbors_updated_at::<Cgol>(acc, c, r, prev, curr, pc, pr);
            assert(acc.at(pc, pr) as int == live_adjacent_mixed(cells, nd0, j, pc, pr));
            lemma_mixed_sum_shift(cells, nd0, j, pc, pr, c, r);
            lemma_mixed_bounds(cells, nd0, j, pc, pr, c, r);
        }
    }
}

/// How the whole mixed count of a padded position changes when cell `j`
/// transitions: by the liveness difference of that one transition if the
/// cell is adjacent to the position, not at all otherwise.
proof fn lemma_mixed_sum_shift(
    cells: GridView<CgolCell>,
    nd0: GridView<u8>,
    j: int,
    pc: int,
    pr: int,
    c: int,
    r: int,
)
    requires
        cells.wf(),
        cells.in_bounds(c, r),
        cells.flat(c, r) == j,
    ensures
        live_adjacent_mixed(cells, nd0, j + 1, pc, pr) == live_adjacent_mixed(
            cells,
            nd0,
            j,
            pc,
            pr,
        ) + (if writes_to(c, r, pc, pr) {
            (if Cgol::next_spec(cells.at(c, r), nd0.at(c + 1, r + 1)) is Live {
                1int
            } else {
                0int
            }) - (if cells.at(c, r) is Live {
                1int
            } else {
                0int
            })
        } else {
            0int
        }),
{
    lemma_mixed_shift(cells, nd0, j, pc - 2, pr - 2, c, r);
    lemma_mixed_shift(cells, nd0, j, pc - 1, pr - 2, c, r);
    lemma_mixed_shift(cells, nd0, j, pc, pr - 2, c, r);
    lemma_mixed_shift(cells, nd0, j, pc - 2, pr - 1, c, r);
    lemma_mixed_shift(cells, nd0, j, pc, pr - 1, c, r);
    lemma_mixed_shift(cells, nd0, j, pc - 2, pr, c, r);
    lemma_mixed_shift(cells, nd0, j, pc - 1, pr, c, r);
    lemma_mixed_shift(cells, nd0, j, pc, pr, c, r);
}

/// A mixed count is a count of a real mixed neighborhood: it lies between 0
/// and 8, and when the transitioning cell is adjacent to the position it
/// leaves room for the transition's adjustment, so the saturating arithmetic
/// of `effect_spec` never actually saturates.
proof fn lemma_mixed_bounds(
    cells: GridView<CgolCell>,
    nd0: GridView<u8>,
    j: int,
    pc: int,
    pr: int,
    c: int,
    r: int,
)
    requires
        cells.wf(),
        cells.in_bounds(c, r),
        cells.flat(c, r) == j,
    ensures
        0 <= live_adjacent_mixed(cells, nd0, j, pc, pr) <= 8,
        writes_to(c, r, pc, pr) && cells.at(c, r) is Live ==> live_adjacent_mixed(
            cells,
            nd0,
            j,
            pc,
            pr,
        ) >= 1,
        writes_to(c, r, pc, pr) && cells.at(c, r) is Dead ==> live_adjacent_mixed(
            cells,
            nd0,
            j,
            pc,
            pr,
        ) <= 7,
{
    if writes_to(c, r, pc, pr) {
        assert(live_at_mixed(cells, nd0, j, c, r) == (if cells.at(c, r) is Live {
            1int
        } else {
            0int
        }));
    }
}

/// How one term of the mixed count changes when cell `j` transitions: only
/// the term of the transitioning cell `(c, r)` itself, and it moves from the
/// current state's liveness to the next state's.
proof fn lemma_mixed_shift(
    cells: GridView<CgolCell>,
    nd0: GridView<u8>,
    j: int,
    tc: int,
    tr: int,
    c: int,
    r: int,
)
    requires
        cells.wf(),
        cells.in_bounds(c, r),
        cells.flat(c, r) == j,
    ensures
        live_at_mixed(cells, nd0, j + 1, tc, tr) == (if tc == c && tr == r {
            if Cgol::next_spec(cells.at(c, r), nd0.at(c + 1, r + 1)) is Live {
                1int
            } else {
                0int
            }
        } else {
            live_at_mixed(cells, nd0, j, tc, tr)
        }),
{
    if cells.in_bounds(tc, tr) && !(tc == c && tr == r) {
        assert(cells.flat(tc, tr) != j);
    }
}

/// Across one whole step, exact aggregates stay exact: the fold of all the
/// transitions' effects leaves every padded position holding the exact
/// live-adjacent count of the new generation.
pub proof fn lemma_step_preserves_aggregates(v: AutomatonView<CgolCell, u8>)
    requires
        v.wf(),
        aggregates_exact(v),
    ensures
        aggregates_exact(step_model::<Cgol>(v)),
        step_model::<Cgol>(v).wf(),
        step_model::<Cgol>(v).cols() == v.cols(),
        step_model::<Cgol>(v).rows() == v.rows(),
{
    crate::automaton::lemma_step_model_wf::<Cgol>(v);
    let nd0 = v.neighbor_back;
    let kk = v.cols() * v.rows();
    lemma_agg_fold_mixed(v.cells, nd0, kk);
    let v2 = step_model::<Cgol>(v);
    assert forall|pc: int, pr: int| v2.neighbor_back.in_bounds(pc, pr) implies (
    #[trigger] v2.neighbor_back.at(pc, pr)) as int == live_adjacent(v2.cells, pc, pr) by {
        lemma_agg_fold_wf::<Cgol>(v.cells, nd0, kk);
        assert(v2.neighbor_back.at(pc, pr) as int == live_adjacent_mixed(
            v.cells,
            nd0,
            kk as int,
            pc,
            pr,
        ));
        lemma_mixed_is_next(v, pc - 2, pr - 2);
        lemma_mixed_is_next(v, pc - 1, pr - 2);
        lemma_mixed_is_next(v, pc, pr - 2);
        lemma_mixed_is_next(v, pc - 2, pr - 1);
        lemma_mixed_is_next(v, pc, pr - 1);
        lemma_mixed_is_next(v, pc - 2, pr);
        lemma_mixed_is_next(v, pc - 1, pr);
        lemma_mixed_is_next(v, pc, pr);
    }
}

/// Once every cell has transitioned, the mixed count of a cell is the
/// liveness of its state in the new generation.
proof fn lemma_mixed_is_next(v: AutomatonView<CgolCell, u8>, tc: int, tr: int)
    requires
        v.wf(),
    ensures
        live_at_mixed(v.cells, v.neighbor_back, (v.cols() * v.rows()) as int, tc, tr) == live_at(
            stepped_cells::<Cgol>(v.cells, v.neighbor_back),
            tc,
            tr,
        ),
{
    if v.cells.in_bounds(tc, tr) {
        assert(v.cells.flat(tc, tr) < v.cols() * v.rows());
        assert(stepped_cells::<Cgol>(v.cells, v.neighbor_back).at(tc, tr) == Cgol::next_spec(
            v.cells.at(tc, tr),
            v.neighbor_back.at(tc + 1, tr + 1),
        ));
    }
}

/// What `step` computes under the Game of Life ruleset: when the stored
/// aggregates are exact, every cell of the new generation is the classic
/// transition table applied to the cell's current state and the exact count
/// of live cells among its Moore neighbors, as a full rescan would compute
/// it. The right-hand side mentions no iteration order, so the row-major
/// order the engine happens to visit cells in is irrelevant to the outcome.
pub proof fn lemma_step_computes_life(v: AutomatonView<CgolCell, u8>)
    requires
        v.wf(),
        aggregates_exact(v),
    ensures
        forall|col: int, row: int|
            v.cells.in_bounds(col, row) ==> #[trigger] step_model::<Cgol>(v).cells.at(col, row)
                == Cgol::next_spec(
                v.cells.at(col, row),
                live_neighbors(v.cells, col, row) as u8,
            ),
{
    assert forall|col: int, row: int| v.cells.in_bounds(col, row) implies #[trigger] step_model::<
        Cgol,
    >(v).cells.at(col, row) == Cgol::next_spec(
        v.cells.at(col, row),
        live_neighbors(v.cells, col, row) as u8,
    ) by {
        assert(stepped_cells::<Cgol>(v.cells, v.neighbor_back).at(col, row) == Cgol::next_spec(
            v.cells.at(col, row),
            v.neighbor_back.at(col + 1, row + 1),
        ));
        assert(v.neighbor_back.at(col + 1, row + 1) as int == live_adjacent(
            v.cells,
            col + 1,
            row + 1,
        ));
    }
}

/// In an all-dead grid with all-zero aggregates no transition carries an
/// effect, so the fold of a step's effects leaves the aggregate grid as it
/// was.
proof fn lemma_blank_agg_fold_id(cells: GridView<CgolCell>, nd0: GridView<u8>, k: nat)
    requires
        cells.wf(),
        nd0.wf(),
        nd0.cols == cells.cols + 2,
        nd0.rows == cells.rows + 2,
        cells.filled_with(CgolCell::Dead),
        nd0.filled_with(0u8),
        k <= cells.cols * cells.rows,
    ensures
        agg_fold::<Cgol>(cells, nd0, k) == nd0,
    decreases k,
{
    if k > 0 {
        lemma_blank_agg_fold_id(cells, nd0, (k - 1) as nat);
        let j = (k - 1) as int;
        crate::grid::lemma_flat_decomp(cells, j);
        let c = j % cells.cols as int;
        let r = j / cells.cols as int;
        assert(cells.at(c, r) == CgolCell::Dead);
        assert(nd0.in_bounds(c + 1, r + 1));
        assert(nd0.at(c + 1, r + 1) == 0u8);
    }
}

/// Stepping a blank automaton is a no-op: every buffer comes out exactly as
/// it went in, including in the degenerate case of a grid with no cells.
pub proof fn lemma_blank_step_noop(v: AutomatonView<CgolCell, u8>)
    requires
        v.wf(),
        blank(v),
    ensures
        step_model::<Cgol>(v) == v,
{
    let nd0 = v.neighbor_back;
    let kk = v.cols() * v.rows();
    lemma_blank_agg_fold_id(v.cells, nd0, kk);
    let sc = stepped_cells::<Cgol>(v.cells, nd0);
    assert forall|i: int| 0 <= i < sc.data.len() implies sc.data[i] == CgolCell::Dead by {
        crate::grid::lemma_flat_decomp(v.cells, i);
        let c = i % v.cells.cols as int;
        let r = i / v.cells.cols as int;
        assert(sc.at(c, r) == Cgol::next_spec(v.cells.at(c, r), nd0.at(c + 1, r + 1)));
        assert(v.cells.at(c, r) == CgolCell::Dead);
        assert(nd0.in_bounds(c + 1, r + 1));
        assert(nd0.at(c + 1, r + 1) == 0u8);
    }
    assert(sc.data =~= v.cells.data);
    assert(v.cells.data =~= v.cells_back.data);
    assert(v.neighbor_back.data =~= v.neighbor_front.data);
    assert(step_model::<Cgol>(v) =~~= v);
}

/// A freshly constructed automaton has every cell at the default state and
/// exact (all-zero) aggregates, and stepping it is a no-op — all values stay
/// at their defaults, whatever the dimensions, the empty grid included.
pub proof fn lemma_fresh_step_noop(v: AutomatonView<CgolCell, u8>, cols: nat, rows: nat)
    requires
        fresh::<Cgol>(v, cols, rows),
    ensures
        blank(v),
        aggregates_exact(v),
        step_model::<Cgol>(v) == v,
{
    lemma_fresh_is_blank(v, cols, rows);
    lemma_blank_aggregates_exact(v);
    lemma_blank_step_noop(v);
}

/// `clear` is idempotent: it always produces the one blank automaton of the
/// given dimensions, so clearing a cleared automaton changes nothing.
pub proof fn lemma_clear_deterministic(
    b: AutomatonView<CgolCell, u8>,
    c: AutomatonView<CgolCell, u8>,
    cols: nat,
    rows: nat,
)
    requires
        fresh::<Cgol>(b, cols, rows),
        fresh::<Cgol>(c, cols, rows),
    ensures
        b == c,
{
    lemma_fresh_is_blank(b, cols, rows);
    lemma_fresh_is_blank(c, cols, rows);
    assert(b.cells.data =~= c.cells.data);
    assert(b.cells_back.data =~= c.cells_back.data);
    assert(b.neighbor_front.data =~= c.neighbor_front.data);
    assert(b.neighbor_back.data =~= c.neighbor_back.data);
    assert(b =~~= c);
}

/// Placing a pattern keeps the aggregates exact: it is a row-major sequence
/// of clipped `set_cell` writes, each of which preserves exactness.
pub proof fn lemma_put_preserves_aggregates(
    v: AutomatonView<CgolCell, u8>,
    pattern: GridView<CgolCell>,
    left: int,
    top: int,
    k: nat,
)
    requires
        v.wf(),
        aggregates_exact(v),
    ensures
        aggregates_exact(put_model::<Cgol>(v, pattern, left, top, k)),
    decreases k,
{
    if k > 0 {
        lemma_put_preserves_aggregates(v, pattern, left, top, (k - 1) as nat);
        lemma_put_model_wf::<Cgol>(v, pattern, left, top, (k - 1) as nat);
        let j = (k - 1) as int;
        let pc = j % pattern.cols as int;
        let pr = j / pattern.cols as int;
        let prev = put_model::<Cgol>(v, pattern, left, top, (k - 1) as nat);
        let c = left + pc;
        let r = top + pr;
        if 0 <= c < prev.cols() && 0 <= r < prev.rows() {
            lemma_set_preserves_aggregates(prev, c, r, pattern.at(pc, pr));
        }
    }
}

} // verus!
