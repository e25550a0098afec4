//! The mathematical model of the game: what a grid is, when a cell is alive,
//! how many live neighbors it has, and what one generation step produces.
//!
//! A grid is a `Seq<Seq<u8>>` in row-major order; a well-formed grid is
//! rectangular and holds only `0` (dead) and `1` (alive). These spec
//! functions are the vocabulary of every contract in the crate.

use vstd::prelude::*;

verus! {

/// A cell value is a bit: `0` for dead, `1` for alive.
pub open spec fn is_bit(x: u8) -> bool {
    x == 0 || x == 1
}

/// The grid has exactly `rows` rows, each of exactly `cols` cells,
/// and every cell is `0` or `1`.
pub open spec fn grid_wf(g: Seq<Seq<u8>>, rows: nat, cols: nat) -> bool {
    &&& g.len() == rows
    &&& forall|r: int| 0 <= r < g.len() ==> (#[trigger] g[r]).len() == cols
    &&& forall|r: int, c: int|
        0 <= r < g.len() && 0 <= c < cols ==> is_bit(#[trigger] g[r][c])
}

/// The cell at `(r, c)` exists and is alive. Positions outside the grid
/// count as dead, which clips the neighborhood at the edges.
pub open spec fn alive(g: Seq<Seq<u8>>, r: int, c: int) -> bool {
    0 <= r < g.len() && 0 <= c < g[r].len() && g[r][c] == 1
}

/// `1` if `(r, c)` holds a live cell, else `0`.
pub open spec fn live_weight(g: Seq<Seq<u8>>, r: int, c: int) -> int {
    if alive(g, r, c) {
        1
    } else {
        0
    }
}

/// Number of live cells among the up to 8 Moore neighbors of `(r, c)`;
/// neighbors outside the grid contribute zero.
pub open spec fn neighbor_count(g: Seq<Seq<u8>>, r: int, c: int) -> int {
    live_weight(g, r - 1, c - 1) + live_weight(g, r - 1, c) + live_weight(g, r - 1, c + 1)
        + live_weight(g, r, c - 1) + live_weight(g, r, c + 1) + live_weight(g, r + 1, c - 1)
        + live_weight(g, r + 1, c) + live_weight(g, r + 1, c + 1)
}

/// The transition rule for one cell: a live cell survives with exactly 2 or
/// 3 live neighbors and dies otherwise; a dead cell becomes alive with
/// exactly 3 live neighbors and is otherwise unchanged.
pub open spec fn next_cell(cur: u8, neighbors: int) -> u8 {
    if cur == 1 {
        if neighbors == 2 || neighbors == 3 {
            1
        } else {
            0
        }
    } else if neighbors == 3 {
        1
    } else {
        cur
    }
}

/// One generation: every cell transitions simultaneously, each from the
/// previous grid's values.
pub open spec fn step(g: Seq<Seq<u8>>) -> Seq<Seq<u8>> {
    Seq::new(
        g.len(),
        |r: int| Seq::new(g[r].len(), |c: int| next_cell(g[r][c], neighbor_count(g, r, c))),
    )
}

/// The `rows` by `cols` grid with every cell dead.
pub open spec fn all_dead(rows: nat, cols: nat) -> Seq<Seq<u8>> {
    Seq::new(rows, |r: int| Seq::new(cols, |c: int| 0u8))
}

/// A dead cell becomes alive and a live cell becomes dead.
pub open spec fn flip(x: u8) -> u8 {
    if x == 0 {
        1
    } else {
        0
    }
}

/// `g` with the single cell at `(r, c)` flipped.
pub open spec fn toggled(g: Seq<Seq<u8>>, r: int, c: int) -> Seq<Seq<u8>> {
    g.update(r, g[r].update(c, flip(g[r][c])))
}

/// The `rows` by `cols` grid read off a row-major sequence of random
/// draws: a cell is alive exactly where its draw is nonzero.
pub open spec fn from_draws(draws: Seq<u8>, rows: nat, cols: nat) -> Seq<Seq<u8>> {
    Seq::new(
        rows,
        |r: int|
            Seq::new(
                cols,
                |c: int|
                    if draws[r * cols + c] != 0 {
                        1u8
                    } else {
                        0u8
                    },
            ),
    )
}

/// The grid `g` evolved `k` generations.
pub open spec fn step_n(g: Seq<Seq<u8>>, k: nat) -> Seq<Seq<u8>>
    decreases k,
{
    if k == 0 {
        g
    } else {
        step(step_n(g, (k - 1) as nat))
    }
}

/// One advance of the pair (history, grid), exactly as `next_generation`
/// changes it: the pre-step grid is appended to the history, the oldest
/// snapshot dropped once the history would exceed `bound` entries, and
/// the grid replaced by its step.
pub open spec fn advance(h: Seq<Seq<Seq<u8>>>, g: Seq<Seq<u8>>, bound: nat) -> (
    Seq<Seq<Seq<u8>>>,
    Seq<Seq<u8>>,
) {
    (
        if h.len() < bound {
            h.push(g)
        } else {
            h.subrange(1, h.len() as int).push(g)
        },
        step(g),
    )
}

/// The pair (history, grid) after `k` calls of `next_generation` with
/// history bound `bound`.
pub open spec fn run(h: Seq<Seq<Seq<u8>>>, g: Seq<Seq<u8>>, bound: nat, k: nat) -> (
    Seq<Seq<Seq<u8>>>,
    Seq<Seq<u8>>,
)
    decreases k,
{
    if k == 0 {
        (h, g)
    } else {
        let (h1, g1) = run(h, g, bound, (k - 1) as nat);
        advance(h1, g1, bound)
    }
}

/// One rewind of the pair (history, grid), exactly as `prev_generation`
/// changes it: the most recent snapshot, if any, becomes the grid and
/// leaves the history; with no history nothing changes.
pub open spec fn rollback(h: Seq<Seq<Seq<u8>>>, g: Seq<Seq<u8>>) -> (
    Seq<Seq<Seq<u8>>>,
    Seq<Seq<u8>>,
) {
    if h.len() > 0 {
        (h.drop_last(), h.last())
    } else {
        (h, g)
    }
}

/// The pair (history, grid) after `k` calls of `prev_generation`,
/// applied first-call-first.
pub open spec fn rewind(h: Seq<Seq<Seq<u8>>>, g: Seq<Seq<u8>>, k: nat) -> (
    Seq<Seq<Seq<u8>>>,
    Seq<Seq<u8>>,
)
    decreases k,
{
    if k == 0 {
        (h, g)
    } else {
        let (h1, g1) = rollback(h, g);
        rewind(h1, g1, (k - 1) as nat)
    }
}

} // verus!
