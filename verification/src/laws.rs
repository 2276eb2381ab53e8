//! Proved properties of the transition rule.
//!
//! Each lemma here states a behaviour of the Game-of-Life rule over the
//! board model of [`crate::rules`]; the grid's `step` contract hands a
//! caller exactly that model, so these laws carry over to the running grid.

use vstd::prelude::*;

use crate::rules::{
    cell_of, generations, in_bounds, lemma_pointwise_next_generation, neighbour_count, next_cell,
    next_generation,
};

verus! {

/// A corner cell has at most three candidate neighbours, never eight:
/// in an `n` by `n` board the five offsets that leave the board at the
/// corner `(0, 0)` contribute nothing to its neighbour count.
pub proof fn lemma_corner_neighbour_bound(cells: Seq<bool>, n: int)
    requires
        2 <= n,
    ensures
        neighbour_count(cells, n, n, 0, 0) <= 3,
{
}

/// Death by isolation: a live cell with no live neighbours is dead in the
/// next generation.
pub proof fn lemma_isolated_cell_dies(cells: Seq<bool>, w: int, h: int, x: int, y: int)
    requires
        in_bounds(w, h, x, y),
        cell_of(cells, w, x, y),
        neighbour_count(cells, w, h, x, y) == 0,
    ensures
        !next_cell(cells, w, h, x, y),
{
}

/// The birth rule: a dead cell with exactly three live neighbours is alive
/// in the next generation; with two or with four it stays dead.
pub proof fn lemma_birth_rule(cells: Seq<bool>, w: int, h: int, x: int, y: int)
    requires
        in_bounds(w, h, x, y),
        !cell_of(cells, w, x, y),
    ensures
        neighbour_count(cells, w, h, x, y) == 3 ==> next_cell(cells, w, h, x, y),
        neighbour_count(cells, w, h, x, y) == 2 ==> !next_cell(cells, w, h, x, y),
        neighbour_count(cells, w, h, x, y) == 4 ==> !next_cell(cells, w, h, x, y),
{
}

/// The 2-by-2 block pattern: exactly the four cells `(1,1)`, `(2,1)`,
/// `(1,2)`, `(2,2)` are alive, on a board of at least 4 by 4 cells.
pub open spec fn is_block(cells: Seq<bool>, w: int, h: int) -> bool {
    &&& 4 <= w
    &&& 4 <= h
    &&& cells.len() == w * h
    &&& forall|x: int, y: int|
        in_bounds(w, h, x, y) ==> (#[trigger] cell_of(cells, w, x, y) <==> (1 <= x <= 2 && 1 <= y
            <= 2))
}

/// Still life: a board holding only the 2-by-2 block is unchanged by a
/// tick. Every live cell of the block has exactly three live neighbours,
/// and no dead cell of the board has three.
pub proof fn lemma_block_still_life(cells: Seq<bool>, w: int, h: int)
    requires
        is_block(cells, w, h),
    ensures
        next_generation(cells, w, h) == cells,
{
    assert forall|x: int, y: int| in_bounds(w, h, x, y) implies #[trigger] cell_of(cells, w, x, y)
        == next_cell(cells, w, h, x, y) by {}
    lemma_pointwise_next_generation(cells, w, h, cells);
    assert(cells =~= next_generation(cells, w, h));
}

/// A board holding only the 2-by-2 block is unchanged after any number of
/// ticks.
pub proof fn lemma_block_forever(cells: Seq<bool>, w: int, h: int, n: nat)
    requires
        is_block(cells, w, h),
    ensures
        generations(cells, w, h, n) == cells,
    decreases n,
{
    if n > 0 {
        lemma_block_forever(cells, w, h, (n - 1) as nat);
        lemma_block_still_life(cells, w, h);
    }
}

/// Determinism: the evolution of a board is a function of its contents and
/// dimensions alone, so two boards that start equal stay equal for any
/// number of ticks.
pub proof fn lemma_evolution_deterministic(
    c1: Seq<bool>,
    c2: Seq<bool>,
    w: int,
    h: int,
    n: nat,
)
    requires
        c1 == c2,
    ensures
        generations(c1, w, h, n) == generations(c2, w, h, n),
{
}

} // verus!
