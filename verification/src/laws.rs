//! Laws of the library: properties that relate several operations,
//! stated over the model in [`crate::rules`] and proved once for all
//! grids.
//!
//! Each law is phrased over the same spec functions the methods'
//! contracts use, so it composes with those contracts: `clear` leaves
//! `all_dead`, `toggle_cell` leaves `toggled`, `next_generation` takes
//! `(history, grid)` to `advance(history, grid, bound)`, and
//! `prev_generation` takes it to `rollback(history, grid)`; `run` and
//! `rewind` iterate those two.

use crate::rules::{
    all_dead, flip, grid_wf, is_bit, neighbor_count, next_cell, rewind, run, step, step_n, toggled,
};
use vstd::prelude::*;

verus! {

/// After `clear`, every cell the grid holds is dead: `clear` leaves the
/// grid `all_dead(rows, cols)`, and every cell of that grid is `0`.
pub proof fn lemma_all_dead_is_dead(rows: nat, cols: nat, r: int, c: int)
    requires
        0 <= r < rows,
        0 <= c < cols,
    ensures
        all_dead(rows, cols)[r][c] == 0,
{
}

/// Toggling a cell flips exactly that cell and leaves every other cell
/// unchanged; toggling it twice restores the whole grid.
pub proof fn lemma_toggle_twice(g: Seq<Seq<u8>>, rows: nat, cols: nat, r: int, c: int)
    requires
        grid_wf(g, rows, cols),
        0 <= r < rows,
        0 <= c < cols,
    ensures
        toggled(g, r, c)[r][c] == flip(g[r][c]),
        toggled(g, r, c)[r][c] != g[r][c],
        forall|r2: int, c2: int|
            0 <= r2 < rows && 0 <= c2 < cols && (r2 != r || c2 != c) ==> toggled(g, r, c)[r2][c2]
                == g[r2][c2],
        toggled(toggled(g, r, c), r, c) == g,
{
    let g1 = toggled(g, r, c);
    assert(is_bit(g[r][c]));
    assert(g1[r].update(c, flip(g1[r][c])) =~= g[r]);
    assert(toggled(g1, r, c) =~~= g);
}

/// One generation is a pure function of the grid alone: equal grids step
/// to equal grids.
pub proof fn lemma_step_deterministic(g1: Seq<Seq<u8>>, g2: Seq<Seq<u8>>)
    requires
        g1 == g2,
    ensures
        step(g1) == step(g2),
{
}

/// Each cell of the stepped grid is exactly the transition rule applied
/// to that cell's old value and its old live-neighbor count.
pub proof fn lemma_step_cell(g: Seq<Seq<u8>>, r: int, c: int)
    requires
        0 <= r < g.len(),
        0 <= c < g[r].len(),
    ensures
        step(g)[r][c] == next_cell(g[r][c], neighbor_count(g, r, c)),
{
}

/// The transition rule, case by case: a live cell with fewer than 2 or
/// more than 3 live neighbors dies and with exactly 2 or 3 survives; a
/// dead cell with exactly 3 live neighbors becomes alive and with any
/// other count stays dead.
pub proof fn lemma_transition_rule(cur: u8, neighbors: int)
    requires
        is_bit(cur),
        0 <= neighbors <= 8,
    ensures
        cur == 1 && neighbors < 2 ==> next_cell(cur, neighbors) == 0,
        cur == 1 && (neighbors == 2 || neighbors == 3) ==> next_cell(cur, neighbors) == 1,
        cur == 1 && neighbors > 3 ==> next_cell(cur, neighbors) == 0,
        cur == 0 && neighbors == 3 ==> next_cell(cur, neighbors) == 1,
        cur == 0 && neighbors != 3 ==> next_cell(cur, neighbors) == 0,
{
}

/// From an empty history, the first `k` generations record exactly the
/// grids seen so far, oldest first, while `k` stays within the bound:
/// after `k` generations the history holds `step_n(g, i)` at place `i`
/// and the grid is `step_n(g, k)`.
pub proof fn lemma_run_history(g: Seq<Seq<u8>>, bound: nat, k: nat)
    requires
        k <= bound,
    ensures
        run(Seq::empty(), g, bound, k).0.len() == k,
        forall|i: int| 0 <= i < k ==> run(Seq::empty(), g, bound, k).0[i] == step_n(g, i as nat),
        run(Seq::empty(), g, bound, k).1 == step_n(g, k),
    decreases k,
{
    if k == 0 {
    } else {
        lemma_run_history(g, bound, (k - 1) as nat);
        let (h1, g1) = run(Seq::<Seq<Seq<u8>>>::empty(), g, bound, (k - 1) as nat);
        assert(run(Seq::<Seq<Seq<u8>>>::empty(), g, bound, k).0 == h1.push(g1));
    }
}

/// Rewinding as many times as the history is long empties it and
/// restores the oldest snapshot (or leaves the grid alone if there was
/// none to begin with).
pub proof fn lemma_rewind_to_origin(h: Seq<Seq<Seq<u8>>>, g: Seq<Seq<u8>>)
    ensures
        rewind(h, g, h.len()).0.len() == 0,
        h.len() > 0 ==> rewind(h, g, h.len()).1 == h[0],
        h.len() == 0 ==> rewind(h, g, h.len()).1 == g,
    decreases h.len(),
{
    if h.len() > 0 {
        lemma_rewind_to_origin(h.drop_last(), h.last());
        if h.len() > 1 {
            assert(h.drop_last()[0] == h[0]);
        }
    }
}

/// With no history, rewinding any number of times changes nothing.
pub proof fn lemma_rewind_empty_noop(h: Seq<Seq<Seq<u8>>>, g: Seq<Seq<u8>>, k: nat)
    requires
        h.len() == 0,
    ensures
        rewind(h, g, k) == (h, g),
    decreases k,
{
    if k > 0 {
        lemma_rewind_empty_noop(h, g, (k - 1) as nat);
    }
}

/// From a fresh universe (empty history, grid `g`), `k` generations
/// followed by `k` rewinds leave the history empty — so a further
/// rewind restores nothing — and restore the starting grid exactly,
/// for any `k` from 1 up to the history bound. (Beyond the bound the
/// oldest snapshots are dropped and the start is no longer reachable.)
pub proof fn lemma_generations_then_rewinds_restore(g: Seq<Seq<u8>>, bound: nat, k: nat)
    requires
        1 <= k <= bound,
    ensures
        run(Seq::empty(), g, bound, k).0.len() == k,
        rewind(run(Seq::empty(), g, bound, k).0, run(Seq::empty(), g, bound, k).1, k).0.len() == 0,
        rewind(run(Seq::empty(), g, bound, k).0, run(Seq::empty(), g, bound, k).1, k).1 == g,
{
    lemma_run_history(g, bound, k);
    let (h1, g1) = run(Seq::<Seq<Seq<u8>>>::empty(), g, bound, k);
    lemma_rewind_to_origin(h1, g1);
    assert(h1[0] == step_n(g, 0));
}

/// The history never exceeds the bound, however many generations run:
/// it grows by one per generation until it reaches the bound and stays
/// there, the oldest snapshot making room for the newest.
pub proof fn lemma_history_capped(h: Seq<Seq<Seq<u8>>>, g: Seq<Seq<u8>>, bound: nat, k: nat)
    requires
        h.len() <= bound,
        bound > 0,
    ensures
        run(h, g, bound, k).0.len() <= bound,
        run(h, g, bound, k).0.len() as int == (if h.len() + k <= bound {
            h.len() + k as int
        } else {
            bound as int
        }),
    decreases k,
{
    if k > 0 {
        lemma_history_capped(h, g, bound, (k - 1) as nat);
    }
}

} // verus!
