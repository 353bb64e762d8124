//! Dynamically allocated 2d array with a row-major mathematical model.

use vstd::arithmetic::div_mod::lemma_fundamental_div_mod_converse;
use vstd::arithmetic::mul::lemma_mul_inequality;
use vstd::prelude::*;

verus! {

broadcast use vstd::slice::axiom_spec_len;

/// Two grids of differing dimensions were passed to an operation that needs
/// them equal.
#[derive(Clone, Copy, Debug, PartialEq, Eq, Structural)]
pub struct DimensionMismatch;

/// Mathematical model of a grid: its dimensions and the row-major sequence of
/// its cells.
#[verifier::ext_equal]
pub ghost struct GridView<T> {
    pub cols: nat,
    pub rows: nat,
    pub data: Seq<T>,
}

impl<T> GridView<T> {
    /// The backing sequence holds exactly `cols * rows` cells.
    pub open spec fn wf(self) -> bool {
        self.data.len() == self.cols * self.rows
    }

    pub open spec fn in_bounds(self, col: int, row: int) -> bool {
        0 <= col < self.cols && 0 <= row < self.rows
    }

    /// Row-major position of the cell `(col, row)` in the backing sequence.
    pub open spec fn flat(self, col: int, row: int) -> int {
        row * self.cols as int + col
    }

    /// The cell at `(col, row)`.
    pub open spec fn at(self, col: int, row: int) -> T {
        self.data[self.flat(col, row)]
    }

    /// This grid with the cell at `(col, row)` replaced by `v`.
    pub open spec fn update(self, col: int, row: int, v: T) -> GridView<T> {
        GridView { data: self.data.update(self.flat(col, row), v), ..self }
    }

    /// The `cols` by `rows` grid whose cell at `(col, row)` is `f(col, row)`.
    pub open spec fn make(cols: nat, rows: nat, f: spec_fn(int, int) -> T) -> GridView<T> {
        GridView {
            cols,
            rows,
            data: Seq::new(cols * rows, |i: int| f(i % cols as int, i / cols as int)),
        }
    }

    /// All cells of the grid hold the value `v`.
    pub open spec fn filled_with(self, v: T) -> bool {
        forall|i: int| 0 <= i < self.data.len() ==> self.data[i] == v
    }
}

/// Every cell of the grid holds a value the type's `Default::default` can
/// return.
pub open spec fn defaulted<T: Default>(g: GridView<T>) -> bool {
    forall|i: int| 0 <= i < g.data.len() ==> call_ensures(T::default, (), #[trigger] g.data[i])
}

/// Relates a cell's coordinates to its row-major position: positions of
/// in-bounds cells are themselves in bounds, and the coordinates can be
/// recovered from the position. This is what makes distinct in-bounds
/// coordinates map to distinct positions.
pub broadcast proof fn lemma_flat_props<T>(g: GridView<T>, col: int, row: int)
    ensures
        g.in_bounds(col, row) ==> {
            &&& 0 <= #[trigger] g.flat(col, row)
            &&& g.wf() ==> g.flat(col, row) < g.data.len()
            &&& g.flat(col, row) % g.cols as int == col
            &&& g.flat(col, row) / g.cols as int == row
        },
{
    if g.in_bounds(col, row) {
        lemma_fundamental_div_mod_converse(g.flat(col, row), g.cols as int, row, col);
        assert(row * g.cols as int + col < g.cols * g.rows) by {
            lemma_mul_inequality(row, g.rows as int - 1, g.cols as int);
            assert(g.cols * (g.rows - 1) + g.cols == g.cols * g.rows) by (nonlinear_arith);
            assert(g.cols as int * g.rows as int == g.cols * g.rows);
        }
    }
}

/// Recovers in-bounds coordinates from a row-major position.
pub proof fn lemma_flat_decomp<T>(g: GridView<T>, i: int)
    requires
        0 <= i < g.cols * g.rows,
    ensures
        g.in_bounds(i % g.cols as int, i / g.cols as int),
        g.flat(i % g.cols as int, i / g.cols as int) == i,
{
    let c = g.cols as int;
    let r = g.rows as int;
    if g.cols == 0 {
        assert(c * r == 0) by (nonlinear_arith)
            requires c == 0;
        assert(g.cols * g.rows == c * r);
    }
    assert(0 <= i % c < c) by {
        vstd::arithmetic::div_mod::lemma_mod_bound(i, c);
    }
    assert(i / c >= 0) by {
        vstd::arithmetic::div_mod::lemma_div_pos_is_pos(i, c);
    }
    assert(i == c * (i / c) + i % c) by {
        vstd::arithmetic::div_mod::lemma_fundamental_div_mod(i, c);
    }
    assert(g.cols * g.rows == c * r);
    assert(i / c < r) by {
        if i / c >= r {
            lemma_mul_inequality(r, i / c, c);
            assert(c * (i / c) == (i / c) * c) by (nonlinear_arith);
            assert(r * c == c * r) by (nonlinear_arith);
        }
    }
    assert((i / c) * c + i % c == c * (i / c) + i % c) by (nonlinear_arith);
}

/// Dynamically allocated 2d array, stored row-major.
pub struct Grid<T> {
    cols: usize,
    rows: usize,
    data: Vec<T>,
}

impl<T> View for Grid<T> {
    type V = GridView<T>;

    closed spec fn view(&self) -> GridView<T> {
        GridView { cols: self.cols as nat, rows: self.rows as nat, data: self.data@ }
    }
}

impl<T> Grid<T> {
    /// Allocates a new grid with the default value in every cell.
    pub fn new(cols: usize, rows: usize) -> (g: Self) where T: Default
        requires
            cols * rows <= usize::MAX,
        ensures
            g@.wf(),
            g@.cols == cols,
            g@.rows == rows,
            defaulted(g@),
    {
        let n = cols * rows;
        let mut data: Vec<T> = Vec::new();
        while data.len() < n
            invariant
                data@.len() <= n,
                forall|i: int|
                    0 <= i < data@.len() ==> call_ensures(T::default, (), #[trigger] data@[i]),
            decreases n - data@.len(),
        {
            data.push(T::default());
        }
        Grid { cols, rows, data }
    }

    /// Builds a grid from a row-major slice of cell values; fails with a
    /// [`DimensionMismatch`] unless the slice holds exactly `cols * rows`
    /// values.
    pub fn from_slice(cols: usize, rows: usize, values: &[T]) -> (r: Result<
        Self,
        DimensionMismatch,
    >) where T: Copy
        ensures
            r is Ok <==> values@.len() == cols * rows,
            r matches Ok(g) ==> g@ == (GridView {
                cols: cols as nat,
                rows: rows as nat,
                data: values@,
            }),
    {
        let len = values.len();
        let n = match cols.checked_mul(rows) {
            Some(n) => n,
            None => {
                return Err(DimensionMismatch);
            },
        };
        if len != n {
            return Err(DimensionMismatch);
        }
        let mut data: Vec<T> = Vec::new();
        let mut i: usize = 0;
        while i < n
            invariant
                i <= n,
                n == values@.len(),
                n == cols * rows,
                data@.len() == i,
                forall|j: int| 0 <= j < i ==> data@[j] == values@[j],
            decreases n - i,
        {
            data.push(values[i]);
            i += 1;
        }
        proof {
            assert(data@ =~= values@);
        }
        Ok(Grid { cols, rows, data })
    }

    /// Reads the cell at `(col, row)`.
    pub fn get(&self, col: usize, row: usize) -> (v: T) where T: Copy
        requires
            self@.wf(),
            self@.in_bounds(col as int, row as int),
        ensures
            v == self@.at(col as int, row as int),
    {
        proof {
            lemma_flat_props(self@, col as int, row as int);
        }
        // pins the store's length to usize, so the index arithmetic fits
        let _n = self.data.len();
        self.data[row * self.cols + col]
    }

    /// Replaces the cell at `(col, row)` with `v`.
    pub fn set(&mut self, col: usize, row: usize, v: T)
        requires
            old(self)@.wf(),
            old(self)@.in_bounds(col as int, row as int),
        ensures
            final(self)@ == old(self)@.update(col as int, row as int, v),
    {
        proof {
            lemma_flat_props(self@, col as int, row as int);
        }
        // pins the store's length to usize, so the index arithmetic fits
        let _n = self.data.len();
        let idx = row * self.cols + col;
        self.data[idx] = v;
    }

    /// Swaps backing storage with another grid in O(1), given its dimensions
    /// are the same; fails with a [`DimensionMismatch`] otherwise, leaving
    /// both grids unchanged.
    pub fn swap(&mut self, other: &mut Self) -> (r: Result<(), DimensionMismatch>)
        ensures
            r is Ok <==> (old(self)@.cols == old(other)@.cols && old(self)@.rows == old(
                other,
            )@.rows),
            r is Ok ==> final(self)@ == (GridView { data: old(other)@.data, ..old(self)@ })
                && final(other)@ == (GridView { data: old(self)@.data, ..old(other)@ }),
            r is Err ==> final(self)@ == old(self)@ && final(other)@ == old(other)@,
    {
        if self.cols == other.cols && self.rows == other.rows {
            core::mem::swap(&mut self.data, &mut other.data);
            Ok(())
        } else {
            Err(DimensionMismatch)
        }
    }

    /// Copies the cells of `src` into this grid element-wise, given its
    /// dimensions are the same; fails with a [`DimensionMismatch`] otherwise,
    /// leaving this grid unchanged.
    pub fn clone_from(&mut self, src: &Self) -> (r: Result<(), DimensionMismatch>) where T: Copy
        requires
            old(self)@.wf(),
            src@.wf(),
        ensures
            r is Ok <==> (old(self)@.cols == src@.cols && old(self)@.rows == src@.rows),
            r is Ok ==> final(self)@ == (GridView { data: src@.data, ..old(self)@ }),
            r is Err ==> final(self)@ == old(self)@,
    {
        if self.cols != src.cols || self.rows != src.rows {
            return Err(DimensionMismatch);
        }
        let n = self.data.len();
        let mut i: usize = 0;
        while i < n
            invariant
                i <= n,
                n == self@.data.len(),
                n == src@.data.len(),
                self@.cols == old(self)@.cols,
                self@.rows == old(self)@.rows,
                forall|j: int| 0 <= j < i ==> self@.data[j] == src@.data[j],
            decreases n - i,
        {
            let v = src.data[i];
            self.data[i] = v;
            i += 1;
        }
        proof {
            assert(self@.data =~= src@.data);
        }
        Ok(())
    }

    /// Resets every cell to the default value, without reallocating.
    pub fn clear(&mut self) where T: Default
        ensures
            final(self)@.cols == old(self)@.cols,
            final(self)@.rows == old(self)@.rows,
            final(self)@.data.len() == old(self)@.data.len(),
            defaulted(final(self)@),
    {
        let n = self.data.len();
        let mut i: usize = 0;
        while i < n
            invariant
                i <= n,
                n == self@.data.len(),
                self@.cols == old(self)@.cols,
                self@.rows == old(self)@.rows,
                forall|j: int|
                    0 <= j < i ==> call_ensures(T::default, (), #[trigger] self@.data[j]),
            decreases n - i,
        {
            self.data[i] = T::default();
            i += 1;
        }
    }

    pub fn cols(&self) -> (c: usize)
        ensures
            c == self@.cols,
    {
        self.cols
    }

    pub fn rows(&self) -> (r: usize)
        ensures
            r == self@.rows,
    {
        self.rows
    }

    /// Returns an iterator over all index pairs `(col, row)` corresponding to
    /// cells of the grid, in row-major order.
    pub fn indices(&self) -> (it: Indices)
        ensures
            it.cols() == self@.cols,
            it.rows() == self@.rows,
            it.col() == 0,
            it.row() == 0,
            it.wf(),
    {
        Indices { col: 0, row: 0, cols: self.cols, rows: self.rows }
    }
}

/// Row-major iterator over the index pairs `(col, row)` of a grid.
pub struct Indices {
    col: usize,
    row: usize,
    cols: usize,
    rows: usize,
}

impl Indices {
    pub closed spec fn col(self) -> int {
        self.col as int
    }

    pub closed spec fn row(self) -> int {
        self.row as int
    }

    pub closed spec fn cols(self) -> int {
        self.cols as int
    }

    pub closed spec fn rows(self) -> int {
        self.rows as int
    }

    /// The iterator has yielded every index pair of the grid.
    pub open spec fn done(self) -> bool {
        self.row() >= self.rows() || self.cols() == 0
    }

    pub open spec fn wf(self) -> bool {
        self.done() || (self.col() < self.cols() && self.row() < self.rows())
    }

    /// Yields the next index pair in row-major order, or `None` once all
    /// cells have been visited.
    pub fn next(&mut self) -> (r: Option<(usize, usize)>)
        requires
            old(self).wf(),
        ensures
            final(self).wf(),
            final(self).cols() == old(self).cols(),
            final(self).rows() == old(self).rows(),
            old(self).done() ==> r is None && *final(self) == *old(self),
            !old(self).done() ==> {
                &&& r matches Some(p) && p.0 == old(self).col() && p.1 == old(self).row()
                &&& if old(self).col() + 1 < old(self).cols() {
                    final(self).col() == old(self).col() + 1 && final(self).row() == old(
                        self,
                    ).row()
                } else {
                    final(self).col() == 0 && final(self).row() == old(self).row() + 1
                }
            },
    {
        if self.row >= self.rows || self.cols == 0 {
            return None;
        }
        let item: (usize, usize) = (self.col, self.row);
        self.col += 1;
        if self.col >= self.cols {
            self.col = 0;
            self.row += 1;
        }
        Some(item)
    }
}

} // verus!
