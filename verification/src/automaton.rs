//! The simulation engine: a double-buffered pair of cell grids composed with
//! a double-buffered pair of padded neighbor-aggregate grids, advanced
//! generation-by-generation under a pluggable [`Ruleset`].
//!
//! Instead of recomputing every cell's aggregate from its 8 neighbors each
//! generation, the engine propagates only the deltas caused by actual state
//! changes: a transition that carries an effect adjusts the aggregates of the
//! cell's up-to-8 Moore neighbors. The aggregate grids are padded by one cell
//! on every side so that writes aimed at virtual off-grid neighbors land in
//! the border and no boundary branch is needed in the hot loop.

use crate::grid::{defaulted, Grid, GridView};
use vstd::prelude::*;

verus! {

broadcast use crate::grid::lemma_flat_props;

/// Defines cell state & next generation rules.
pub trait Ruleset: Sized {
    type State: Default + Copy;

    type NeighborData: Default + Copy;

    /// The state of a cell in the next generation, from its current state and
    /// its collected neighbor aggregate.
    spec fn next_spec(s: Self::State, n: Self::NeighborData) -> Self::State;

    /// Whether the transition from `prev` to `curr` adjusts the aggregates of
    /// the cell's neighbors.
    spec fn has_effect(prev: Self::State, curr: Self::State) -> bool;

    /// The adjustment the transition from `prev` to `curr` applies to one
    /// neighbor's aggregate.
    spec fn effect_spec(
        prev: Self::State,
        curr: Self::State,
        n: Self::NeighborData,
    ) -> Self::NeighborData;

    /// Returns the state of a cell in the next generation based on the
    /// current state and the collected neighbor data.
    fn next(s: &Self::State, n: &Self::NeighborData) -> (r: Self::State)
        ensures
            r == Self::next_spec(*s, *n),
    ;

    /// Whether `update_neighbor` must be called for the neighbors of a cell
    /// that transitions from `prev` to `curr`.
    fn update_needed(prev: &Self::State, curr: &Self::State) -> (r: bool)
        ensures
            r == Self::has_effect(*prev, *curr),
    ;

    /// Applies the adjustment of the transition from `prev` to `curr` to one
    /// neighbor's aggregate.
    fn update_neighbor(prev: &Self::State, curr: &Self::State, n: &mut Self::NeighborData)
        requires
            Self::has_effect(*prev, *curr),
        ensures
            *final(n) == Self::effect_spec(*prev, *curr, *old(n)),
    ;
}

/// Mathematical model of an [`Automaton`]: the four buffers it owns.
///
/// `cells` is the current generation; `cells_back` is the scratch buffer the
/// next generation is written into. `neighbor_back` is the live aggregate
/// grid: the one `set_cell` and the effects of a step write to, and the one
/// the next step reads a snapshot of; `neighbor_front` holds that snapshot.
/// Both aggregate grids are padded by one cell on every side, so the
/// aggregate for the cell `(col, row)` lives at padded position
/// `(col + 1, row + 1)`.
#[verifier::ext_equal]
pub ghost struct AutomatonView<S, N> {
    pub cells: GridView<S>,
    pub cells_back: GridView<S>,
    pub neighbor_front: GridView<N>,
    pub neighbor_back: GridView<N>,
}

impl<S, N> AutomatonView<S, N> {
    pub open spec fn cols(self) -> nat {
        self.cells.cols
    }

    pub open spec fn rows(self) -> nat {
        self.cells.rows
    }

    /// The four buffers are well formed, the two cell grids share their
    /// dimensions, and the two aggregate grids are padded by one cell on
    /// every side.
    pub open spec fn wf(self) -> bool {
        &&& self.cells.wf()
        &&& self.cells_back.wf()
        &&& self.neighbor_front.wf()
        &&& self.neighbor_back.wf()
        &&& self.cells_back.cols == self.cols()
        &&& self.cells_back.rows == self.rows()
        &&& self.neighbor_front.cols == self.cols() + 2
        &&& self.neighbor_front.rows == self.rows() + 2
        &&& self.neighbor_back.cols == self.cols() + 2
        &&& self.neighbor_back.rows == self.rows() + 2
    }
}

/// Whether the transition of the cell `(col, row)` writes to the padded
/// aggregate position `(pc, pr)`: the 3-by-3 block of padded positions around
/// the cell's own padded position `(col + 1, row + 1)`, without its center.
pub open spec fn writes_to(col: int, row: int, pc: int, pr: int) -> bool {
    &&& col <= pc <= col + 2
    &&& row <= pr <= row + 2
    &&& !(pc == col + 1 && pr == row + 1)
}

/// The aggregate grid `nd` after the transition of the cell `(col, row)` from
/// `prev` to `curr`: if the transition carries an effect, the effect is
/// applied once to each of the eight padded positions around the cell's own,
/// each computed from the value `nd` held there.
pub open spec fn neighbors_updated<R: Ruleset>(
    nd: GridView<R::NeighborData>,
    col: int,
    row: int,
    prev: R::State,
    curr: R::State,
) -> GridView<R::NeighborData> {
    if R::has_effect(prev, curr) {
        nd.update(col, row, R::effect_spec(prev, curr, nd.at(col, row))).update(
            col + 1,
            row,
            R::effect_spec(prev, curr, nd.at(col + 1, row)),
        ).update(col + 2, row, R::effect_spec(prev, curr, nd.at(col + 2, row))).update(
            col,
            row + 1,
            R::effect_spec(prev, curr, nd.at(col, row + 1)),
        ).update(col + 2, row + 1, R::effect_spec(prev, curr, nd.at(col + 2, row + 1))).update(
            col,
            row + 2,
            R::effect_spec(prev, curr, nd.at(col, row + 2)),
        ).update(col + 1, row + 2, R::effect_spec(prev, curr, nd.at(col + 1, row + 2))).update(
            col + 2,
            row + 2,
            R::effect_spec(prev, curr, nd.at(col + 2, row + 2)),
        )
    } else {
        nd
    }
}

/// What `neighbors_updated` does to each single padded position: positions
/// the transition writes to get the effect applied to their old value, all
/// others are untouched.
pub proof fn lemma_neighbors_updated_at<R: Ruleset>(
    nd: GridView<R::NeighborData>,
    col: int,
    row: int,
    prev: R::State,
    curr: R::State,
    pc: int,
    pr: int,
)
    requires
        nd.wf(),
        0 <= col,
        0 <= row,
        col + 2 < nd.cols,
        row + 2 < nd.rows,
        nd.in_bounds(pc, pr),
    ensures
        neighbors_updated::<R>(nd, col, row, prev, curr).wf(),
        neighbors_updated::<R>(nd, col, row, prev, curr).cols == nd.cols,
        neighbors_updated::<R>(nd, col, row, prev, curr).rows == nd.rows,
        neighbors_updated::<R>(nd, col, row, prev, curr).at(pc, pr) == (if writes_to(
            col,
            row,
            pc,
            pr,
        ) && R::has_effect(prev, curr) {
            R::effect_spec(prev, curr, nd.at(pc, pr))
        } else {
            nd.at(pc, pr)
        }),
{
}

/// The model of `set_cell`: the cell is replaced, and the live aggregate grid
/// takes the effect of the transition from the cell's old state to `s`.
pub open spec fn set_model<R: Ruleset>(
    v: AutomatonView<R::State, R::NeighborData>,
    col: int,
    row: int,
    s: R::State,
) -> AutomatonView<R::State, R::NeighborData> {
    AutomatonView {
        cells: v.cells.update(col, row, s),
        neighbor_back: neighbors_updated::<R>(v.neighbor_back, col, row, v.cells.at(col, row), s),
        ..v
    }
}

/// `set_model` keeps the automaton well formed and its dimensions.
pub proof fn lemma_set_model_wf<R: Ruleset>(
    v: AutomatonView<R::State, R::NeighborData>,
    col: int,
    row: int,
    s: R::State,
)
    requires
        v.wf(),
        v.cells.in_bounds(col, row),
    ensures
        set_model::<R>(v, col, row, s).wf(),
        set_model::<R>(v, col, row, s).cols() == v.cols(),
        set_model::<R>(v, col, row, s).rows() == v.rows(),
{
    lemma_neighbors_updated_at::<R>(
        v.neighbor_back,
        col,
        row,
        v.cells.at(col, row),
        s,
        0,
        0,
    );
}

/// The cell grid of the next generation: every cell's state is the ruleset's
/// transition applied to its current state and its stored aggregate, all read
/// from the current generation.
pub open spec fn stepped_cells<R: Ruleset>(
    cells: GridView<R::State>,
    nd0: GridView<R::NeighborData>,
) -> GridView<R::State> {
    GridView::make(
        cells.cols,
        cells.rows,
        |c: int, r: int| R::next_spec(cells.at(c, r), nd0.at(c + 1, r + 1)),
    )
}

/// The live aggregate grid after the first `k` cells, in row-major order,
/// have applied the effects of their transitions. Every transition is
/// computed from the cell grid `cells` and the aggregate snapshot `nd0` of
/// the current generation, so the order the cells are visited in cannot
/// change which transitions fire.
pub open spec fn agg_fold<R: Ruleset>(
    cells: GridView<R::State>,
    nd0: GridView<R::NeighborData>,
    k: nat,
) -> GridView<R::NeighborData>
    decreases k,
{
    if k == 0 {
        nd0
    } else {
        let j = (k - 1) as int;
        let c = j % cells.cols as int;
        let r = j / cells.cols as int;
        let prev = cells.at(c, r);
        let curr = R::next_spec(prev, nd0.at(c + 1, r + 1));
        neighbors_updated::<R>(agg_fold::<R>(cells, nd0, (k - 1) as nat), c, r, prev, curr)
    }
}

/// `agg_fold` keeps the aggregate grid well formed and its dimensions.
pub proof fn lemma_agg_fold_wf<R: Ruleset>(
    cells: GridView<R::State>,
    nd0: GridView<R::NeighborData>,
    k: nat,
)
    requires
        nd0.wf(),
        nd0.cols == cells.cols + 2,
        nd0.rows == cells.rows + 2,
        k <= cells.cols * cells.rows,
    ensures
        agg_fold::<R>(cells, nd0, k).wf(),
        agg_fold::<R>(cells, nd0, k).cols == nd0.cols,
        agg_fold::<R>(cells, nd0, k).rows == nd0.rows,
    decreases k,
{
    if k > 0 {
        lemma_agg_fold_wf::<R>(cells, nd0, (k - 1) as nat);
        let j = (k - 1) as int;
        crate::grid::lemma_flat_decomp(cells, j);
        let c = j % cells.cols as int;
        let r = j / cells.cols as int;
        let prev = cells.at(c, r);
        let curr = R::next_spec(prev, nd0.at(c + 1, r + 1));
        lemma_neighbors_updated_at::<R>(
            agg_fold::<R>(cells, nd0, (k - 1) as nat),
            c,
            r,
            prev,
            curr,
            0,
            0,
        );
    }
}

/// The model of `step`: the current generation's cells and live aggregates
/// are read, every cell transitions, the transitions' effects accumulate in
/// the live aggregate grid, and the cell buffers are swapped.
pub open spec fn step_model<R: Ruleset>(
    v: AutomatonView<R::State, R::NeighborData>,
) -> AutomatonView<R::State, R::NeighborData> {
    AutomatonView {
        cells: stepped_cells::<R>(v.cells, v.neighbor_back),
        cells_back: v.cells,
        neighbor_front: v.neighbor_back,
        neighbor_back: agg_fold::<R>(v.cells, v.neighbor_back, v.cols() * v.rows()),
    }
}

/// `step_model` keeps the automaton well formed and its dimensions.
pub proof fn lemma_step_model_wf<R: Ruleset>(v: AutomatonView<R::State, R::NeighborData>)
    requires
        v.wf(),
    ensures
        step_model::<R>(v).wf(),
        step_model::<R>(v).cols() == v.cols(),
        step_model::<R>(v).rows() == v.rows(),
{
    lemma_agg_fold_wf::<R>(v.cells, v.neighbor_back, v.cols() * v.rows());
}

/// The model of `put`: the first `k` cells of `pattern`, in row-major order,
/// written through `set_model` at their offset destination, skipping every
/// cell whose destination falls outside the grid.
pub open spec fn put_model<R: Ruleset>(
    v: AutomatonView<R::State, R::NeighborData>,
    pattern: GridView<R::State>,
    left: int,
    top: int,
    k: nat,
) -> AutomatonView<R::State, R::NeighborData>
    decreases k,
{
    if k == 0 {
        v
    } else {
        let j = (k - 1) as int;
        let pc = j % pattern.cols as int;
        let pr = j / pattern.cols as int;
        let prev = put_model::<R>(v, pattern, left, top, (k - 1) as nat);
        let c = left + pc;
        let r = top + pr;
        if 0 <= c < prev.cols() && 0 <= r < prev.rows() {
            set_model::<R>(prev, c, r, pattern.at(pc, pr))
        } else {
            prev
        }
    }
}

/// `put_model` keeps the automaton well formed and its dimensions.
pub proof fn lemma_put_model_wf<R: Ruleset>(
    v: AutomatonView<R::State, R::NeighborData>,
    pattern: GridView<R::State>,
    left: int,
    top: int,
    k: nat,
)
    requires
        v.wf(),
    ensures
        put_model::<R>(v, pattern, left, top, k).wf(),
        put_model::<R>(v, pattern, left, top, k).cols() == v.cols(),
        put_model::<R>(v, pattern, left, top, k).rows() == v.rows(),
    decreases k,
{
    if k > 0 {
        lemma_put_model_wf::<R>(v, pattern, left, top, (k - 1) as nat);
        let j = (k - 1) as int;
        let pc = j % pattern.cols as int;
        let pr = j / pattern.cols as int;
        let prev = put_model::<R>(v, pattern, left, top, (k - 1) as nat);
        let c = left + pc;
        let r = top + pr;
        if 0 <= c < prev.cols() && 0 <= r < prev.rows() {
            lemma_set_model_wf::<R>(prev, c, r, pattern.at(pc, pr));
        }
    }
}

/// What `put` does to the cell grid: exactly the cells in the intersection
/// of the pattern's footprint with the grid take the pattern's values, and
/// every other cell is untouched. In particular a pattern placed with a
/// negative offset writes only the in-bounds intersection; a partial overlap
/// never fails.
pub proof fn lemma_put_model_cells<R: Ruleset>(
    v: AutomatonView<R::State, R::NeighborData>,
    pattern: GridView<R::State>,
    left: int,
    top: int,
    k: nat,
)
    requires
        v.wf(),
        pattern.wf(),
        k <= pattern.cols * pattern.rows,
    ensures
        forall|c: int, r: int|
            v.cells.in_bounds(c, r) ==> #[trigger] put_model::<R>(
                v,
                pattern,
                left,
                top,
                k,
            ).cells.at(c, r) == (if pattern.in_bounds(c - left, r - top) && pattern.flat(
                c - left,
                r - top,
            ) < k {
                pattern.at(c - left, r - top)
            } else {
                v.cells.at(c, r)
            }),
    decreases k,
{
    if k > 0 {
        lemma_put_model_cells::<R>(v, pattern, left, top, (k - 1) as nat);
        lemma_put_model_wf::<R>(v, pattern, left, top, (k - 1) as nat);
        let j = (k - 1) as int;
        crate::grid::lemma_flat_decomp(pattern, j);
        let pc = j % pattern.cols as int;
        let pr = j / pattern.cols as int;
        let prev = put_model::<R>(v, pattern, left, top, (k - 1) as nat);
        let cur = put_model::<R>(v, pattern, left, top, k);
        let c0 = left + pc;
        let r0 = top + pr;
        assert forall|c: int, r: int| v.cells.in_bounds(c, r) implies #[trigger] cur.cells.at(
            c,
            r,
        ) == (if pattern.in_bounds(c - left, r - top) && pattern.flat(c - left, r - top) < k {
            pattern.at(c - left, r - top)
        } else {
            v.cells.at(c, r)
        }) by {
            if 0 <= c0 < prev.cols() && 0 <= r0 < prev.rows() {
                assert(cur.cells == prev.cells.update(c0, r0, pattern.at(pc, pr)));
                if c == c0 && r == r0 {
                    assert(cur.cells.at(c, r) == pattern.at(pc, pr));
                    assert(c - left == pc && r - top == pr);
                    assert(pattern.flat(pc, pr) == j);
                } else {
                    assert(cur.cells.at(c, r) == prev.cells.at(c, r));
                    if pattern.in_bounds(c - left, r - top) && pattern.flat(c - left, r - top)
                        == j {
                        assert(c - left == pc && r - top == pr);
                        assert(false);
                    }
                }
            } else {
                assert(cur.cells == prev.cells);
                if pattern.in_bounds(c - left, r - top) && pattern.flat(c - left, r - top) == j {
                    assert(c - left == pc && r - top == pr);
                    assert(false);
                }
            }
        }
    }
}

/// Stores cell state & runs rules.
pub struct Automaton<R: Ruleset> {
    cells: Grid<R::State>,
    cells_back: Grid<R::State>,
    neighbor_front: Grid<R::NeighborData>,
    neighbor_back: Grid<R::NeighborData>,
}

impl<R: Ruleset> View for Automaton<R> {
    type V = AutomatonView<R::State, R::NeighborData>;

    closed spec fn view(&self) -> AutomatonView<R::State, R::NeighborData> {
        AutomatonView {
            cells: self.cells@,
            cells_back: self.cells_back@,
            neighbor_front: self.neighbor_front@,
            neighbor_back: self.neighbor_back@,
        }
    }
}

/// A freshly constructed or cleared automaton: well formed, of the given
/// dimensions, with every cell of all four buffers at its default value.
pub open spec fn fresh<R: Ruleset>(
    v: AutomatonView<R::State, R::NeighborData>,
    cols: nat,
    rows: nat,
) -> bool {
    &&& v.wf()
    &&& v.cols() == cols
    &&& v.rows() == rows
    &&& defaulted(v.cells)
    &&& defaulted(v.cells_back)
    &&& defaulted(v.neighbor_front)
    &&& defaulted(v.neighbor_back)
}

impl<R: Ruleset> Automaton<R> {
    /// Allocates an automaton of the given dimensions with every buffer at
    /// default values.
    pub fn new(cols: usize, rows: usize) -> (a: Self)
        requires
            cols <= usize::MAX - 2,
            rows <= usize::MAX - 2,
            (cols + 2) * (rows + 2) <= usize::MAX,
        ensures
            fresh::<R>(a@, cols as nat, rows as nat),
    {
        proof {
            assert(cols * rows <= (cols + 2) * (rows + 2)) by (nonlinear_arith)
                requires
                    cols >= 0,
                    rows >= 0,
            ;
        }
        Automaton {
            cells: Grid::new(cols, rows),
            cells_back: Grid::new(cols, rows),
            neighbor_front: Grid::new(cols + 2, rows + 2),
            neighbor_back: Grid::new(cols + 2, rows + 2),
        }
    }

    pub fn cols(&self) -> (c: usize)
        ensures
            c == self@.cols(),
    {
        self.cells.cols()
    }

    pub fn rows(&self) -> (r: usize)
        ensures
            r == self@.rows(),
    {
        self.cells.rows()
    }

    /// Returns the current cell state at the specified coordinates.
    pub fn cell(&self, col: usize, row: usize) -> (s: R::State)
        requires
            self@.wf(),
            col < self@.cols(),
            row < self@.rows(),
        ensures
            s == self@.cells.at(col as int, row as int),
    {
        self.cells.get(col, row)
    }

    /// Returns the grid of the current generation's cell states.
    pub fn cells(&self) -> (g: &Grid<R::State>)
        ensures
            g@ == self@.cells,
    {
        &self.cells
    }

    /// Applies the ruleset's adjustment for the transition from `prev` to
    /// `curr` to the aggregates of all up-to-8 neighbors of `(col, row)`,
    /// in the live aggregate grid.
    fn update_neighbors(&mut self, col: usize, row: usize, prev: &R::State, curr: &R::State)
        requires
            old(self)@.wf(),
            col < old(self)@.cols(),
            row < old(self)@.rows(),
            R::has_effect(*prev, *curr),
        ensures
            final(self)@ == (AutomatonView {
                neighbor_back: neighbors_updated::<R>(
                    old(self)@.neighbor_back,
                    col as int,
                    row as int,
                    *prev,
                    *curr,
                ),
                ..old(self)@
            }),
    {
        // pins the padded dimensions to usize, so col + 2 and row + 2 fit
        let _pcols = self.neighbor_back.cols();
        let _prows = self.neighbor_back.rows();

        let mut n = self.neighbor_back.get(col, row);
        R::update_neighbor(prev, curr, &mut n);
        self.neighbor_back.set(col, row, n);

        let mut n = self.neighbor_back.get(col + 1, row);
        R::update_neighbor(prev, curr, &mut n);
        self.neighbor_back.set(col + 1, row, n);

        let mut n = self.neighbor_back.get(col + 2, row);
        R::update_neighbor(prev, curr, &mut n);
        self.neighbor_back.set(col + 2, row, n);

        let mut n = self.neighbor_back.get(col, row + 1);
        R::update_neighbor(prev, curr, &mut n);
        self.neighbor_back.set(col, row + 1, n);

        let mut n = self.neighbor_back.get(col + 2, row + 1);
        R::update_neighbor(prev, curr, &mut n);
        self.neighbor_back.set(col + 2, row + 1, n);

        let mut n = self.neighbor_back.get(col, row + 2);
        R::update_neighbor(prev, curr, &mut n);
        self.neighbor_back.set(col, row + 2, n);

        let mut n = self.neighbor_back.get(col + 1, row + 2);
        R::update_neighbor(prev, curr, &mut n);
        self.neighbor_back.set(col + 1, row + 2, n);

        let mut n = self.neighbor_back.get(col + 2, row + 2);
        R::update_neighbor(prev, curr, &mut n);
        self.neighbor_back.set(col + 2, row + 2, n);
    }

    /// Sets the cell state at the specified coordinates, first applying the
    /// ruleset's adjustment for the transition to the aggregates of the
    /// cell's neighbors in the live aggregate grid, so that an externally
    /// injected edit stays consistent with subsequent steps.
    pub fn set_cell(&mut self, col: usize, row: usize, new: R::State)
        requires
            old(self)@.wf(),
            col < old(self)@.cols(),
            row < old(self)@.rows(),
        ensures
            final(self)@ == set_model::<R>(old(self)@, col as int, row as int, new),
            final(self)@.wf(),
            final(self)@.cols() == old(self)@.cols(),
            final(self)@.rows() == old(self)@.rows(),
    {
        proof {
            lemma_set_model_wf::<R>(old(self)@, col as int, row as int, new);
        }
        let current = self.cells.get(col, row);
        if R::update_needed(&current, &new) {
            self.update_neighbors(col, row, &current, &new);
        }
        self.cells.set(col, row, new);
    }

    /// Advances the grid to the next generation.
    ///
    /// The live aggregate grid is snapshotted, every cell's transition is
    /// computed from the current generation alone, the new states land in the
    /// rear cell buffer and the transitions' effects in the live aggregate
    /// grid, and the cell buffers are swapped in O(1). Every read targets the
    /// current generation and every write the next, so no cell's result
    /// depends on another cell's result from the same step.
    pub fn step(&mut self)
        requires
            old(self)@.wf(),
        ensures
            final(self)@ == step_model::<R>(old(self)@),
            final(self)@.wf(),
            final(self)@.cols() == old(self)@.cols(),
            final(self)@.rows() == old(self)@.rows(),
    {
        let ghost v0 = self@;
        let ghost cells0 = v0.cells;
        let ghost nd0 = v0.neighbor_back;
        let cols = self.cells.cols();
        let rows = self.cells.rows();
        let pcols = self.neighbor_front.cols();

        let r_copy = self.neighbor_front.clone_from(&self.neighbor_back);
        proof {
            assert(r_copy is Ok);
            assert(self@.neighbor_front == nd0);
        }

        let mut row: usize = 0;
        while row < rows
            invariant
                row <= rows,
                cols == cells0.cols,
                rows == cells0.rows,
                pcols == cells0.cols + 2,
                cells0.wf(),
                nd0.wf(),
                nd0.cols == cells0.cols + 2,
                nd0.rows == cells0.rows + 2,
                self@.cells == cells0,
                self@.neighbor_front == nd0,
                self@.cells_back.wf(),
                self@.cells_back.cols == cells0.cols,
                self@.cells_back.rows == cells0.rows,
                self@.neighbor_back.wf(),
                self@.neighbor_back.cols == cells0.cols + 2,
                self@.neighbor_back.rows == cells0.rows + 2,
                self@.neighbor_back == agg_fold::<R>(cells0, nd0, (row * cols) as nat),
                forall|i: int|
                    0 <= i < row * cols ==> self@.cells_back.data[i] == stepped_cells::<R>(
                        cells0,
                        nd0,
                    ).data[i],
            decreases rows - row,
        {
            let mut col: usize = 0;
            proof {
                assert(row * cols <= row * cols + cols && (row + 1) * cols == row * cols + cols
                    && rows * cols <= cols * rows && row * cols + cols <= rows * cols)
                    by (nonlinear_arith)
                    requires
                        0 <= row < rows,
                        0 <= cols,
                ;
            }
            while col < cols
                invariant
                    col <= cols,
                    row < rows,
                    cols == cells0.cols,
                    rows == cells0.rows,
                    pcols == cells0.cols + 2,
                    cells0.wf(),
                    nd0.wf(),
                    nd0.cols == cells0.cols + 2,
                    nd0.rows == cells0.rows + 2,
                    self@.cells == cells0,
                    self@.neighbor_front == nd0,
                    self@.cells_back.wf(),
                    self@.cells_back.cols == cells0.cols,
                    self@.cells_back.rows == cells0.rows,
                    self@.neighbor_back.wf(),
                    self@.neighbor_back.cols == cells0.cols + 2,
                    self@.neighbor_back.rows == cells0.rows + 2,
                    self@.neighbor_back == agg_fold::<R>(cells0, nd0, (row * cols + col) as nat),
                    forall|i: int|
                        0 <= i < row * cols + col ==> self@.cells_back.data[i]
                            == stepped_cells::<R>(cells0, nd0).data[i],
                decreases cols - col,
            {
                let current = self.cells.get(col, row);
                let nd = self.neighbor_front.get(col + 1, row + 1);
                let next = R::next(&current, &nd);
                if R::update_needed(&current, &next) {
                    self.update_neighbors(col, row, &current, &next);
                }
                self.cells_back.set(col, row, next);
                proof {
                    let k = row * cols + col;
                    vstd::arithmetic::div_mod::lemma_fundamental_div_mod_converse(
                        k,
                        cols as int,
                        row as int,
                        col as int,
                    );
                    assert(self@.neighbor_back == agg_fold::<R>(cells0, nd0, (k + 1) as nat));
                    assert(self@.cells_back.data[k] == stepped_cells::<R>(cells0, nd0).data[k]);
                    assert(k + 1 <= cols * rows) by (nonlinear_arith)
                        requires
                            k == row * cols + col,
                            0 <= col < cols,
                            0 <= row < rows,
                    ;
                    lemma_agg_fold_wf::<R>(cells0, nd0, (k + 1) as nat);
                }
                col += 1;
            }
            row += 1;
        }
        proof {
            assert(rows * cols == cols * rows) by (nonlinear_arith);
            assert(self@.cells_back.data =~= stepped_cells::<R>(cells0, nd0).data);
            assert(self@.cells_back =~= stepped_cells::<R>(cells0, nd0));
        }
        let r_swap = self.cells.swap(&mut self.cells_back);
        proof {
            assert(r_swap is Ok);
            assert(self@.cells =~= stepped_cells::<R>(cells0, nd0));
            assert(self@.cells_back =~= cells0);
            assert(self@ =~= step_model::<R>(v0));
            lemma_agg_fold_wf::<R>(cells0, nd0, (cols * rows) as nat);
        }
    }

    /// Copies the given pattern onto the grid at the specified offset. Every
    /// pattern cell whose destination falls outside the grid is silently
    /// skipped; the rest are written through the same transition path as
    /// `set_cell`.
    pub fn put(&mut self, pattern: &Grid<R::State>, left: isize, top: isize)
        requires
            old(self)@.wf(),
            pattern@.wf(),
            pattern@.cols <= isize::MAX,
            pattern@.rows <= isize::MAX,
            left + pattern@.cols <= isize::MAX,
            top + pattern@.rows <= isize::MAX,
        ensures
            final(self)@ == put_model::<R>(
                old(self)@,
                pattern@,
                left as int,
                top as int,
                pattern@.cols * pattern@.rows,
            ),
            final(self)@.wf(),
            final(self)@.cols() == old(self)@.cols(),
            final(self)@.rows() == old(self)@.rows(),
    {
        let ghost v0 = self@;
        let pcols = pattern.cols();
        let prows = pattern.rows();
        let cols = self.cols();
        let rows = self.rows();

        let mut prow: usize = 0;
        while prow < prows
            invariant
                prow <= prows,
                pcols == pattern@.cols,
                prows == pattern@.rows,
                pattern@.wf(),
                pcols <= isize::MAX,
                prows <= isize::MAX,
                left + pcols <= isize::MAX,
                top + prows <= isize::MAX,
                v0.wf(),
                cols == v0.cols(),
                rows == v0.rows(),
                self@.wf(),
                self@.cols() == v0.cols(),
                self@.rows() == v0.rows(),
                self@ == put_model::<R>(v0, pattern@, left as int, top as int, (prow * pcols) as nat),
            decreases prows - prow,
        {
            let mut pcol: usize = 0;
            proof {
                assert(prow * pcols <= prow * pcols + pcols && (prow + 1) * pcols == prow * pcols
                    + pcols && prow * pcols + pcols <= prows * pcols && prows * pcols == pcols
                    * prows) by (nonlinear_arith)
                    requires
                        0 <= prow < prows,
                        0 <= pcols,
                ;
            }
            while pcol < pcols
                invariant
                    pcol <= pcols,
                    prow < prows,
                    pcols == pattern@.cols,
                    prows == pattern@.rows,
                    pattern@.wf(),
                    pcols <= isize::MAX,
                    prows <= isize::MAX,
                    left + pcols <= isize::MAX,
                    top + prows <= isize::MAX,
                    v0.wf(),
                    cols == v0.cols(),
                    rows == v0.rows(),
                    self@.wf(),
                    self@.cols() == v0.cols(),
                    self@.rows() == v0.rows(),
                    self@ == put_model::<R>(
                        v0,
                        pattern@,
                        left as int,
                        top as int,
                        (prow * pcols + pcol) as nat,
                    ),
                decreases pcols - pcol,
            {
                let val = pattern.get(pcol, prow);
                let c = left + (pcol as isize);
                let r = top + (prow as isize);
                proof {
                    let k = prow * pcols + pcol;
                    vstd::arithmetic::div_mod::lemma_fundamental_div_mod_converse(
                        k,
                        pcols as int,
                        prow as int,
                        pcol as int,
                    );
                }
                if c >= 0 && r >= 0 {
                    let cu = c as usize;
                    let ru = r as usize;
                    if cu < cols && ru < rows {
                        self.set_cell(cu, ru, val);
                    }
                }
                proof {
                    let k = prow * pcols + pcol;
                    assert(self@ == put_model::<R>(
                        v0,
                        pattern@,
                        left as int,
                        top as int,
                        (k + 1) as nat,
                    ));
                }
                pcol += 1;
            }
            prow += 1;
        }
        proof {
            assert(prows * pcols == pcols * prows) by (nonlinear_arith);
        }
    }

    /// Passes the current cell state at the specified coordinates to `f` and
    /// stores the state `f` returns, updating the cell's neighbors' aggregates
    /// as `set_cell` does; returns the second component of `f`'s result.
    pub fn with_cell_mut<O, F: FnOnce(R::State) -> (R::State, O)>(
        &mut self,
        col: usize,
        row: usize,
        f: F,
    ) -> (r: O)
        requires
            old(self)@.wf(),
            col < old(self)@.cols(),
            row < old(self)@.rows(),
            call_requires(f, (old(self)@.cells.at(col as int, row as int),)),
        ensures
            exists|s2: R::State|
                #[trigger] call_ensures(f, (old(self)@.cells.at(col as int, row as int),), (s2, r))
                    && final(self)@ == set_model::<R>(old(self)@, col as int, row as int, s2),
    {
        let current = self.cells.get(col, row);
        let (s2, out) = f(current);
        self.set_cell(col, row, s2);
        out
    }

    /// Resets every cell of all four buffers to its default value, without
    /// reallocating.
    pub fn clear(&mut self)
        requires
            old(self)@.wf(),
        ensures
            fresh::<R>(final(self)@, old(self)@.cols(), old(self)@.rows()),
    {
        self.cells.clear();
        self.cells_back.clear();
        self.neighbor_front.clear();
        self.neighbor_back.clear();
    }
}

} // verus!
