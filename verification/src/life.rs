//! The transition rule of the game, stated over mathematical grids.
//!
//! A grid is a sequence of rows, each a sequence of cells; a cell is `true`
//! when it is alive. Row `i`, column `j` is `g[i][j]`. Positions outside
//! the grid hold no cell and never count as alive: the board has edges, it
//! does not wrap around.

use vstd::prelude::*;

verus! {

/// Every one of the `h` rows of `g` has `w` cells.
pub open spec fn rectangular(g: Seq<Seq<bool>>, w: int, h: int) -> bool {
    &&& g.len() == h
    &&& forall|i: int| 0 <= i < h ==> (#[trigger] g[i]).len() == w
}

/// Position `(i, j)` names a cell of `g`.
pub open spec fn in_grid(g: Seq<Seq<bool>>, i: int, j: int) -> bool {
    0 <= i < g.len() && 0 <= j < g[i].len()
}

/// There is a live cell at `(i, j)`. False for every position outside `g`.
pub open spec fn alive(g: Seq<Seq<bool>>, i: int, j: int) -> bool {
    in_grid(g, i, j) && g[i][j]
}

/// 1 for a live cell at `(i, j)`, 0 otherwise.
pub open spec fn population(g: Seq<Seq<bool>>, i: int, j: int) -> int {
    if alive(g, i, j) {
        1
    } else {
        0
    }
}

/// How many of the eight positions around `(i, j)` hold a live cell.
pub open spec fn live_neighbors(g: Seq<Seq<bool>>, i: int, j: int) -> int {
    population(g, i - 1, j - 1) + population(g, i - 1, j) + population(g, i - 1, j + 1)
        + population(g, i, j - 1) + population(g, i, j + 1)
        + population(g, i + 1, j - 1) + population(g, i + 1, j) + population(g, i + 1, j + 1)
}

/// The rule: a live cell stays alive with two or three live neighbours, a
/// dead cell comes alive with exactly three; every other cell is dead.
pub open spec fn lives_on(current: bool, neighbors: int) -> bool {
    if current {
        neighbors == 2 || neighbors == 3
    } else {
        neighbors == 3
    }
}

/// The state of cell `(i, j)` one generation after `g`.
pub open spec fn next_cell(g: Seq<Seq<bool>>, i: int, j: int) -> bool {
    lives_on(alive(g, i, j), live_neighbors(g, i, j))
}

/// The generation that follows `g`: same shape, every cell decided by the
/// rule from `g` alone.
pub open spec fn next_generation(g: Seq<Seq<bool>>) -> Seq<Seq<bool>> {
    Seq::new(g.len(), |i: int| Seq::new(g[i].len(), |j: int| next_cell(g, i, j)))
}

/// No cell of `g` is alive.
pub open spec fn all_dead(g: Seq<Seq<bool>>) -> bool {
    forall|i: int, j: int| in_grid(g, i, j) ==> !(#[trigger] g[i][j])
}

/// A generation has the shape of the one before it.
pub proof fn lemma_next_generation_keeps_shape(g: Seq<Seq<bool>>, w: int, h: int)
    requires
        rectangular(g, w, h),
    ensures
        rectangular(next_generation(g), w, h),
        forall|i: int, j: int|
            in_grid(g, i, j) ==> #[trigger] next_generation(g)[i][j] == next_cell(g, i, j),
{
}

/// Nothing is born on an empty board: the generation after an all-dead grid
/// is all dead.
pub proof fn lemma_dead_grid_stays_dead(g: Seq<Seq<bool>>)
    requires
        all_dead(g),
    ensures
        all_dead(next_generation(g)),
{
    let n = next_generation(g);
    assert forall|i: int, j: int| in_grid(n, i, j) implies !(#[trigger] n[i][j]) by {
        assert(live_neighbors(g, i, j) == 0);
    }
}

/// A position outside the grid never holds a live cell, whatever the grid
/// holds on its opposite edge.
pub proof fn lemma_outside_is_dead(g: Seq<Seq<bool>>, i: int, j: int)
    requires
        !in_grid(g, i, j),
    ensures
        !alive(g, i, j),
        population(g, i, j) == 0,
{
}

/// On each edge of a rectangular grid the three positions beyond that edge
/// add nothing to a cell's neighbour count; only cells next to it inside the
/// grid are counted.
pub proof fn lemma_edge_neighbors(g: Seq<Seq<bool>>, w: int, h: int, i: int, j: int)
    requires
        rectangular(g, w, h),
        0 <= i < h,
        0 <= j < w,
    ensures
        i == 0 ==> live_neighbors(g, i, j) == population(g, i, j - 1) + population(g, i, j + 1)
            + population(g, i + 1, j - 1) + population(g, i + 1, j) + population(g, i + 1, j + 1),
        i == h - 1 ==> live_neighbors(g, i, j) == population(g, i, j - 1) + population(
            g,
            i,
            j + 1,
        ) + population(g, i - 1, j - 1) + population(g, i - 1, j) + population(g, i - 1, j + 1),
        j == 0 ==> live_neighbors(g, i, j) == population(g, i - 1, j) + population(g, i + 1, j)
            + population(g, i - 1, j + 1) + population(g, i, j + 1) + population(g, i + 1, j + 1),
        j == w - 1 ==> live_neighbors(g, i, j) == population(g, i - 1, j) + population(
            g,
            i + 1,
            j,
        ) + population(g, i - 1, j - 1) + population(g, i, j - 1) + population(g, i + 1, j - 1),
{
}

/// A corner cell has at most three neighbours, all inside the grid. So a
/// live corner cell with fewer than two live cells among them is dead in the
/// next generation, however many cells live along the opposite edges.
pub proof fn lemma_corner_cell(g: Seq<Seq<bool>>, w: int, h: int, i: int, j: int)
    requires
        rectangular(g, w, h),
        h >= 1,
        w >= 1,
        i == 0 || i == h - 1,
        j == 0 || j == w - 1,
    ensures
        0 <= live_neighbors(g, i, j) <= 3,
        ({
            let di = if i == 0 { 1 } else { -1 };
            let dj = if j == 0 { 1 } else { -1 };
            live_neighbors(g, i, j) == population(g, i + di, j) + population(g, i, j + dj)
                + population(g, i + di, j + dj)
        }),
        live_neighbors(g, i, j) < 2 ==> !next_cell(g, i, j),
{
}

/// The next state of a cell depends only on the cell and on the cells of the
/// grid that touch it: two grids of one shape that agree there agree on the
/// cell's next state.
pub proof fn lemma_next_cell_is_local(
    a: Seq<Seq<bool>>,
    b: Seq<Seq<bool>>,
    w: int,
    h: int,
    i: int,
    j: int,
)
    requires
        rectangular(a, w, h),
        rectangular(b, w, h),
        0 <= i < h,
        0 <= j < w,
        forall|r: int, c: int|
            i - 1 <= r <= i + 1 && j - 1 <= c <= j + 1 && 0 <= r < h && 0 <= c < w
                ==> a[r][c] == b[r][c],
    ensures
        next_cell(a, i, j) == next_cell(b, i, j),
{
    assert(forall|r: int, c: int|
        i - 1 <= r <= i + 1 && j - 1 <= c <= j + 1 ==> #[trigger] population(a, r, c)
            == population(b, r, c));
}

} // verus!
