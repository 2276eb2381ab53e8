//! The mathematical model of a Game-of-Life board.
//!
//! A generation is a `Seq<bool>` of length `w * h`, stored row-major: the
//! cell at column `x`, row `y` sits at index `y * w + x`. The functions here
//! define that addressing, the neighbour count with its hard (non-wrapping)
//! edge, and the transition rule; `next_generation` is the whole board
//! advanced by one tick.

use vstd::prelude::*;

verus! {

/// A coordinate pair is on the board.
pub open spec fn in_bounds(w: int, h: int, x: int, y: int) -> bool {
    0 <= x < w && 0 <= y < h
}

/// Row-major index of the cell at column `x`, row `y`.
pub open spec fn offset_of(w: int, x: int, y: int) -> int {
    y * w + x
}

/// The cell at column `x`, row `y` of a row-major board of width `w`.
pub open spec fn cell_of(cells: Seq<bool>, w: int, x: int, y: int) -> bool {
    cells[offset_of(w, x, y)]
}

/// 1 if `(x, y)` is on the board and alive, else 0. Coordinates off the
/// board contribute nothing: the edge neither wraps nor counts as dead.
pub open spec fn live_at(cells: Seq<bool>, w: int, h: int, x: int, y: int) -> int {
    if in_bounds(w, h, x, y) && cell_of(cells, w, x, y) {
        1int
    } else {
        0int
    }
}

/// Number of live cells among the up-to-8 neighbours of `(x, y)`.
pub open spec fn neighbour_count(cells: Seq<bool>, w: int, h: int, x: int, y: int) -> int {
    live_at(cells, w, h, x - 1, y - 1) + live_at(cells, w, h, x, y - 1) + live_at(
        cells,
        w,
        h,
        x + 1,
        y - 1,
    ) + live_at(cells, w, h, x - 1, y) + live_at(cells, w, h, x + 1, y) + live_at(
        cells,
        w,
        h,
        x - 1,
        y + 1,
    ) + live_at(cells, w, h, x, y + 1) + live_at(cells, w, h, x + 1, y + 1)
}

/// Conway's transition rule for one cell: a cell is alive in the next
/// generation exactly when it has three live neighbours, or it is alive
/// now and has two.
pub open spec fn life_rule(alive: bool, n: int) -> bool {
    n == 3 || (alive && n == 2)
}

/// The next state of the cell at `(x, y)`.
pub open spec fn next_cell(cells: Seq<bool>, w: int, h: int, x: int, y: int) -> bool {
    life_rule(cell_of(cells, w, x, y), neighbour_count(cells, w, h, x, y))
}

/// Every cell of the board is dead.
pub open spec fn all_dead(cells: Seq<bool>) -> bool {
    forall|i: int| 0 <= i < cells.len() ==> !cells[i]
}

/// The whole board advanced by one tick.
pub open spec fn next_generation(cells: Seq<bool>, w: int, h: int) -> Seq<bool> {
    Seq::new(cells.len(), |i: int| next_cell(cells, w, h, i % w, i / w))
}

/// The board after `n` ticks.
pub open spec fn generations(cells: Seq<bool>, w: int, h: int, n: nat) -> Seq<bool>
    decreases n,
{
    if n == 0 {
        cells
    } else {
        next_generation(generations(cells, w, h, (n - 1) as nat), w, h)
    }
}

/// An on-board coordinate pair maps to an index inside the board's storage.
pub proof fn lemma_offset_in_range(w: int, h: int, x: int, y: int)
    requires
        in_bounds(w, h, x, y),
    ensures
        0 <= offset_of(w, x, y) < w * h,
{
    assert(0 <= y * w + x < w * h) by (nonlinear_arith)
        requires
            0 <= x < w,
            0 <= y < h,
    ;
}

/// Distinct on-board coordinate pairs map to distinct indices.
pub proof fn lemma_offset_injective(w: int, h: int, x1: int, y1: int, x2: int, y2: int)
    requires
        in_bounds(w, h, x1, y1),
        in_bounds(w, h, x2, y2),
        offset_of(w, x1, y1) == offset_of(w, x2, y2),
    ensures
        x1 == x2 && y1 == y2,
{
    assert(x1 == x2 && y1 == y2) by (nonlinear_arith)
        requires
            0 <= x1 < w,
            0 <= x2 < w,
            0 <= y1 < h,
            0 <= y2 < h,
            y1 * w + x1 == y2 * w + x2,
    ;
}

/// Every index inside the board's storage is the offset of the on-board
/// coordinates recovered from it by division and remainder.
pub proof fn lemma_index_coords(w: int, h: int, i: int)
    requires
        0 < w,
        0 < h,
        0 <= i < w * h,
    ensures
        in_bounds(w, h, i % w, i / w),
        offset_of(w, i % w, i / w) == i,
{
    assert(0 <= i % w < w && 0 <= i / w < h && (i / w) * w + i % w == i) by (nonlinear_arith)
        requires
            0 < w,
            0 < h,
            0 <= i < w * h,
    ;
}

/// A board that agrees with `next_cell` of `cells` at every on-board
/// coordinate is `next_generation(cells, w, h)`.
pub proof fn lemma_pointwise_next_generation(cells: Seq<bool>, w: int, h: int, stepped: Seq<bool>)
    requires
        0 < w,
        0 < h,
        cells.len() == w * h,
        stepped.len() == w * h,
        forall|x: int, y: int|
            in_bounds(w, h, x, y) ==> #[trigger] cell_of(stepped, w, x, y) == next_cell(
                cells,
                w,
                h,
                x,
                y,
            ),
    ensures
        stepped =~= next_generation(cells, w, h),
{
    assert forall|i: int| 0 <= i < stepped.len() implies stepped[i] == next_generation(
        cells,
        w,
        h,
    )[i] by {
        lemma_index_coords(w, h, i);
        assert(cell_of(stepped, w, i % w, i / w) == next_cell(cells, w, h, i % w, i / w));
    }
}

} // verus!
