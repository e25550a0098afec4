//! The simulation object: a rectangular grid of cells together with a
//! bounded stack of prior grids for one-step-at-a-time rewind.
//!
//! Every mutating method relates the new state to the old one over the
//! model in [`crate::rules`]: the grid view is a `Seq<Seq<u8>>` in
//! row-major order, the history view a sequence of such grids,
//! most-recent-last.

use crate::rules::{
    advance, all_dead, from_draws, grid_wf, neighbor_count, next_cell, rollback, step, toggled,
};
use vstd::prelude::*;

verus! {

/// Most snapshots the history stack ever holds; the oldest is dropped
/// first once a new snapshot would exceed it.
pub const MAX_HISTORY: usize = 100;

/// Grid dimension used when the caller gives none.
pub const DEFAULT_DIM: usize = 25;

/// The dimension a caller asked for, or the default where it gave none.
pub open spec fn dim_or_default(d: Option<usize>) -> int {
    match d {
        Some(v) => v as int,
        None => DEFAULT_DIM as int,
    }
}

/// A Game of Life universe: a `rows` by `cols` grid of cells, each `0`
/// (dead) or `1` (alive), and a bounded history of prior grids.
pub struct Universe {
    rows: usize,
    cols: usize,
    grid: Vec<Vec<u8>>,
    history: Vec<Vec<Vec<u8>>>,
}

impl Universe {
    /// The current grid as a sequence of rows of cell values.
    pub closed spec fn grid_view(&self) -> Seq<Seq<u8>> {
        self.grid.deep_view()
    }

    /// The history as a sequence of grid snapshots, most-recent-last.
    pub closed spec fn history_view(&self) -> Seq<Seq<Seq<u8>>> {
        self.history.deep_view()
    }

    /// Number of rows, fixed at construction.
    pub closed spec fn spec_rows(&self) -> nat {
        self.rows as nat
    }

    /// Number of columns, fixed at construction.
    pub closed spec fn spec_cols(&self) -> nat {
        self.cols as nat
    }

    /// The invariant every method preserves: positive dimensions whose
    /// product fits in `usize`, a rectangular grid of bits, and a history
    /// of at most [`MAX_HISTORY`] snapshots, each itself a well-formed grid.
    pub closed spec fn well_formed(&self) -> bool {
        &&& self.rows > 0
        &&& self.cols > 0
        &&& self.rows * self.cols <= usize::MAX
        &&& grid_wf(self.grid_view(), self.spec_rows(), self.spec_cols())
        &&& self.history_view().len() <= MAX_HISTORY
        &&& forall|i: int|
            0 <= i < self.history_view().len() ==> grid_wf(
                #[trigger] self.history_view()[i],
                self.spec_rows(),
                self.spec_cols(),
            )
    }

    /// Creates an all-dead universe of the given dimensions, each
    /// defaulting to [`DEFAULT_DIM`], with empty history. Dimensions must
    /// be positive and their product must fit in `usize`.
    pub fn new(rows: Option<usize>, cols: Option<usize>) -> (u: Universe)
        requires
            dim_or_default(rows) > 0,
            dim_or_default(cols) > 0,
            dim_or_default(rows) * dim_or_default(cols) <= usize::MAX,
        ensures
            u.well_formed(),
            u.spec_rows() == dim_or_default(rows),
            u.spec_cols() == dim_or_default(cols),
            u.grid_view() == all_dead(u.spec_rows(), u.spec_cols()),
            u.history_view().len() == 0,
    {
        let r: usize = match rows {
            Some(v) => v,
            None => DEFAULT_DIM,
        };
        let c: usize = match cols {
            Some(v) => v,
            None => DEFAULT_DIM,
        };
        let u = Universe { rows: r, cols: c, grid: make_dead_grid(r, c), history: Vec::new() };
        proof {
            assert(u.history_view() =~= Seq::<Seq<Seq<u8>>>::empty());
        }
        u
    }

    /// Resets every cell to dead; dimensions and history are untouched.
    pub fn clear(&mut self)
        requires
            old(self).well_formed(),
        ensures
            final(self).well_formed(),
            final(self).spec_rows() == old(self).spec_rows(),
            final(self).spec_cols() == old(self).spec_cols(),
            final(self).grid_view() == all_dead(old(self).spec_rows(), old(self).spec_cols()),
            final(self).history_view() == old(self).history_view(),
    {
        self.grid = make_dead_grid(self.rows, self.cols);
    }

    /// Empties the history buffer; the current grid is untouched.
    pub fn clear_history(&mut self)
        requires
            old(self).well_formed(),
        ensures
            final(self).well_formed(),
            final(self).spec_rows() == old(self).spec_rows(),
            final(self).spec_cols() == old(self).spec_cols(),
            final(self).grid_view() == old(self).grid_view(),
            final(self).history_view().len() == 0,
    {
        self.history.clear();
        proof {
            assert(self.history_view() =~= Seq::<Seq<Seq<u8>>>::empty());
        }
    }

    /// Reports whether at least one snapshot is available to roll back to.
    pub fn has_history(&self) -> (b: bool)
        ensures
            b == (self.history_view().len() > 0),
    {
        self.history.len() > 0
    }

    /// Flips the cell at `(row, col)`; coordinates outside the grid are
    /// silently ignored and nothing is mutated.
    pub fn toggle_cell(&mut self, row: usize, col: usize)
        requires
            old(self).well_formed(),
        ensures
            final(self).well_formed(),
            final(self).spec_rows() == old(self).spec_rows(),
            final(self).spec_cols() == old(self).spec_cols(),
            final(self).history_view() == old(self).history_view(),
            row < old(self).spec_rows() && col < old(self).spec_cols() ==> final(self).grid_view()
                == toggled(old(self).grid_view(), row as int, col as int),
            !(row < old(self).spec_rows() && col < old(self).spec_cols()) ==> final(self).grid_view()
                == old(self).grid_view(),
    {
        if row < self.rows && col < self.cols {
            proof {
                assert(self.grid@.len() == self.grid_view().len());
                assert(self.grid@[row as int]@.len() == self.grid_view()[row as int].len());
            }
            let cur = self.grid[row][col];
            let v: u8 = if cur == 0 {
                1
            } else {
                0
            };
            self.grid[row][col] = v;
            proof {
                assert(self.grid_view() =~~= toggled(
                    old(self).grid_view(),
                    row as int,
                    col as int,
                ));
            }
        }
    }

    /// Refills the whole grid from a row-major sequence of random draws,
    /// one per cell: a cell becomes alive exactly where its draw is
    /// nonzero. The caller owns the random source and thresholds each
    /// draw itself, which keeps the fill deterministic for a given input.
    /// History is untouched.
    pub fn random(&mut self, draws: &Vec<u8>)
        requires
            old(self).well_formed(),
            draws@.len() == old(self).spec_rows() * old(self).spec_cols(),
        ensures
            final(self).well_formed(),
            final(self).spec_rows() == old(self).spec_rows(),
            final(self).spec_cols() == old(self).spec_cols(),
            final(self).history_view() == old(self).history_view(),
            final(self).grid_view() == from_draws(
                draws@,
                old(self).spec_rows(),
                old(self).spec_cols(),
            ),
    {
        let rows = self.rows;
        let cols = self.cols;
        let ghost target = from_draws(draws@, rows as nat, cols as nat);
        let mut new_grid: Vec<Vec<u8>> = Vec::new();
        let mut i: usize = 0;
        while i < rows
            invariant
                self == old(self),
                self.well_formed(),
                self.spec_rows() == rows,
                self.spec_cols() == cols,
                draws@.len() == rows * cols,
                target == from_draws(draws@, rows as nat, cols as nat),
                i <= rows,
                new_grid.len() == i,
                forall|r: int| 0 <= r < i ==> (#[trigger] new_grid@[r])@.len() == cols,
                forall|r: int, c: int|
                    0 <= r < i && 0 <= c < cols ==> new_grid@[r]@[c] == target[r][c],
            decreases rows - i,
        {
            let mut new_row: Vec<u8> = Vec::new();
            let mut j: usize = 0;
            while j < cols
                invariant
                    self.well_formed(),
                    self.spec_rows() == rows,
                    self.spec_cols() == cols,
                    draws@.len() == rows * cols,
                    target == from_draws(draws@, rows as nat, cols as nat),
                    i < rows,
                    j <= cols,
                    new_row.len() == j,
                    forall|c: int| 0 <= c < j ==> new_row@[c] == target[i as int][c],
                decreases cols - j,
            {
                proof {
                    assert(i * cols + j < rows * cols) by (nonlinear_arith)
                        requires
                            i < rows,
                            j < cols,
                    ;
                }
                let idx: usize = i * cols + j;
                let v: u8 = if draws[idx] != 0 {
                    1
                } else {
                    0
                };
                new_row.push(v);
                j += 1;
            }
            new_grid.push(new_row);
            i += 1;
        }
        proof {
            assert(new_grid.deep_view() =~~= target);
        }
        self.grid = new_grid;
    }

    /// Advances the grid one generation: every cell transitions
    /// simultaneously under the standard rule, each from the previous
    /// generation's values. The pre-transition grid is first pushed onto
    /// the history; once that would exceed [`MAX_HISTORY`] snapshots the
    /// oldest one is dropped.
    pub fn next_generation(&mut self)
        requires
            old(self).well_formed(),
        ensures
            final(self).well_formed(),
            final(self).spec_rows() == old(self).spec_rows(),
            final(self).spec_cols() == old(self).spec_cols(),
            final(self).grid_view() == step(old(self).grid_view()),
            old(self).history_view().len() < MAX_HISTORY ==> final(self).history_view() == old(
                self,
            ).history_view().push(old(self).grid_view()),
            old(self).history_view().len() >= MAX_HISTORY ==> final(self).history_view() == old(
                self,
            ).history_view().subrange(1, old(self).history_view().len() as int).push(
                old(self).grid_view(),
            ),
            (final(self).history_view(), final(self).grid_view()) == advance(
                old(self).history_view(),
                old(self).grid_view(),
                MAX_HISTORY as nat,
            ),
    {
        let ghost g0 = self.grid_view();
        let ghost h0 = self.history_view();
        let rows = self.rows;
        let cols = self.cols;
        let mut new_grid: Vec<Vec<u8>> = Vec::new();
        let mut i: usize = 0;
        while i < rows
            invariant
                self == old(self),
                self.well_formed(),
                self.spec_rows() == rows,
                self.spec_cols() == cols,
                i <= rows,
                new_grid.len() == i,
                forall|r: int| 0 <= r < i ==> (#[trigger] new_grid@[r])@.len() == cols,
                forall|r: int, c: int|
                    0 <= r < i && 0 <= c < cols ==> new_grid@[r]@[c] == step(self.grid_view())[r][c],
            decreases rows - i,
        {
            let mut new_row: Vec<u8> = Vec::new();
            let mut j: usize = 0;
            while j < cols
                invariant
                    self == old(self),
                    self.well_formed(),
                    self.spec_rows() == rows,
                    self.spec_cols() == cols,
                    i < rows,
                    j <= cols,
                    new_row.len() == j,
                    forall|c: int|
                        0 <= c < j ==> new_row@[c] == step(self.grid_view())[i as int][c],
                decreases cols - j,
            {
                let neighbors = self.count_neighbors(i, j);
                proof {
                    assert(self.grid@.len() == self.grid_view().len());
                    assert(self.grid@[i as int]@.len() == self.grid_view()[i as int].len());
                }
                let cur = self.grid[i][j];
                let v: u8 = if cur == 1 {
                    if neighbors == 2 || neighbors == 3 {
                        1
                    } else {
                        0
                    }
                } else if neighbors == 3 {
                    1
                } else {
                    cur
                };
                proof {
                    assert(v == next_cell(
                        self.grid_view()[i as int][j as int],
                        neighbor_count(self.grid_view(), i as int, j as int),
                    ));
                    assert(v == step(self.grid_view())[i as int][j as int]);
                }
                new_row.push(v);
                j += 1;
            }
            new_grid.push(new_row);
            i += 1;
        }
        proof {
            assert(new_grid.deep_view() =~~= step(self.grid_view()));
        }
        let snapshot = clone_grid(&self.grid);
        self.history.push(snapshot);
        proof {
            assert(self.history_view() =~= h0.push(g0));
        }
        if self.history.len() > MAX_HISTORY {
            self.history.remove(0);
            proof {
                assert(self.history_view() =~= h0.push(g0).remove(0));
                assert(self.history_view() =~= h0.subrange(1, h0.len() as int).push(g0));
            }
        }
        self.grid = new_grid;
        proof {
            assert(grid_wf(self.grid_view(), rows as nat, cols as nat));
        }
    }

    /// Pops the most recent snapshot off the history and restores it as
    /// the current grid, returning whether a snapshot was available; with
    /// empty history nothing changes and `false` comes back.
    pub fn prev_generation(&mut self) -> (restored: bool)
        requires
            old(self).well_formed(),
        ensures
            final(self).well_formed(),
            final(self).spec_rows() == old(self).spec_rows(),
            final(self).spec_cols() == old(self).spec_cols(),
            restored == (old(self).history_view().len() > 0),
            restored ==> final(self).grid_view() == old(self).history_view().last(),
            restored ==> final(self).history_view() == old(self).history_view().drop_last(),
            !restored ==> final(self).grid_view() == old(self).grid_view(),
            !restored ==> final(self).history_view() == old(self).history_view(),
            (final(self).history_view(), final(self).grid_view()) == rollback(
                old(self).history_view(),
                old(self).grid_view(),
            ),
    {
        let ghost h0 = self.history_view();
        match self.history.pop() {
            Some(prev_grid) => {
                proof {
                    assert(self.history_view() =~= h0.drop_last());
                    assert(old(self).history_view()[h0.len() - 1] == h0.last());
                    assert(grid_wf(h0.last(), old(self).spec_rows(), old(self).spec_cols()));
                }
                self.grid = prev_grid;
                proof {
                    assert(self.grid_view() == h0.last());
                    assert forall|i: int| 0 <= i < self.history_view().len() implies grid_wf(
                        #[trigger] self.history_view()[i],
                        self.spec_rows(),
                        self.spec_cols(),
                    ) by {
                        assert(old(self).history_view()[i] == h0[i]);
                        assert(self.history_view()[i] == h0[i]);
                    }
                }
                true
            },
            None => {
                proof {
                    assert(self.history_view() =~= h0);
                }
                false
            },
        }
    }

    /// Returns an owned row-major copy of the current grid contents for
    /// the host to render; the internal storage is never aliased.
    pub fn get_grid(&self) -> (g: Vec<Vec<u8>>)
        ensures
            g.deep_view() == self.grid_view(),
    {
        clone_grid(&self.grid)
    }

    /// Counts the live cells among the up to 8 Moore neighbors of
    /// `(row, col)`, clipping the neighborhood at the grid edges.
    fn count_neighbors(&self, row: usize, col: usize) -> (n: u8)
        requires
            self.well_formed(),
            row < self.spec_rows(),
            col < self.spec_cols(),
        ensures
            n as int == neighbor_count(self.grid_view(), row as int, col as int),
    {
        proof {
            assert(self.grid@.len() == self.grid_view().len());
            assert(forall|r: int|
                0 <= r < self.grid@.len() ==> (#[trigger] self.grid@[r])@.len()
                    == self.grid_view()[r].len());
            assert(forall|r: int, c: int|
                0 <= r < self.grid@.len() && 0 <= c < self.grid@[r]@.len() ==> #[trigger] self
                    .grid@[r]@[c] == self.grid_view()[r][c]);
        }
        let mut n: u8 = 0;
        if row > 0 && col > 0 && self.grid[row - 1][col - 1] == 1 {
            n = n + 1;
        }
        if row > 0 && self.grid[row - 1][col] == 1 {
            n = n + 1;
        }
        if row > 0 && col + 1 < self.cols && self.grid[row - 1][col + 1] == 1 {
            n = n + 1;
        }
        if col > 0 && self.grid[row][col - 1] == 1 {
            n = n + 1;
        }
        if col + 1 < self.cols && self.grid[row][col + 1] == 1 {
            n = n + 1;
        }
        if row + 1 < self.rows && col > 0 && self.grid[row + 1][col - 1] == 1 {
            n = n + 1;
        }
        if row + 1 < self.rows && self.grid[row + 1][col] == 1 {
            n = n + 1;
        }
        if row + 1 < self.rows && col + 1 < self.cols && self.grid[row + 1][col + 1] == 1 {
            n = n + 1;
        }
        n
    }
}

impl Default for Universe {
    /// The default universe: [`DEFAULT_DIM`] by [`DEFAULT_DIM`], all
    /// cells dead, empty history.
    fn default() -> (u: Universe)
        ensures
            u.well_formed(),
            u.spec_rows() == DEFAULT_DIM,
            u.spec_cols() == DEFAULT_DIM,
            u.grid_view() == all_dead(DEFAULT_DIM as nat, DEFAULT_DIM as nat),
            u.history_view().len() == 0,
    {
        Universe::new(None, None)
    }
}

/// Builds a `rows` by `cols` grid with every cell dead.
fn make_dead_grid(rows: usize, cols: usize) -> (g: Vec<Vec<u8>>)
    ensures
        g.deep_view() == all_dead(rows as nat, cols as nat),
{
    let mut g: Vec<Vec<u8>> = Vec::new();
    let mut i: usize = 0;
    while i < rows
        invariant
            i <= rows,
            g.len() == i,
            forall|r: int| 0 <= r < i ==> (#[trigger] g@[r])@.len() == cols,
            forall|r: int, c: int| 0 <= r < i && 0 <= c < cols ==> g@[r]@[c] == 0u8,
        decreases rows - i,
    {
        let mut row: Vec<u8> = Vec::new();
        let mut j: usize = 0;
        while j < cols
            invariant
                j <= cols,
                row.len() == j,
                forall|c: int| 0 <= c < j ==> row@[c] == 0u8,
            decreases cols - j,
        {
            row.push(0);
            j += 1;
        }
        g.push(row);
        i += 1;
    }
    proof {
        assert(g.deep_view() =~~= all_dead(rows as nat, cols as nat));
    }
    g
}

/// Deep-copies a grid, row by row and cell by cell.
fn clone_grid(g: &Vec<Vec<u8>>) -> (out: Vec<Vec<u8>>)
    ensures
        out.deep_view() == g.deep_view(),
{
    let mut out: Vec<Vec<u8>> = Vec::new();
    let mut i: usize = 0;
    while i < g.len()
        invariant
            i <= g.len(),
            out.len() == i,
            forall|r: int| 0 <= r < i ==> (#[trigger] out@[r])@ == g@[r]@,
        decreases g.len() - i,
    {
        let src = &g[i];
        let mut row: Vec<u8> = Vec::new();
        let mut j: usize = 0;
        while j < src.len()
            invariant
                j <= src.len(),
                row.len() == j,
                forall|c: int| 0 <= c < j ==> row@[c] == src@[c],
            decreases src.len() - j,
        {
            row.push(src[j]);
            j += 1;
        }
        proof {
            assert(row@ =~= g@[i as int]@);
        }
        out.push(row);
        i += 1;
    }
    proof {
        assert(out.deep_view() =~~= g.deep_view());
    }
    out
}

} // verus!
