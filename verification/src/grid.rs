//! The double-buffered Game-of-Life grid.
//!
//! [`BoolGrid`] holds two boolean buffers of `width * height` cells each.
//! Reads (`get`) go to the current buffer; writes (`set`) are staged into
//! the other one; `flip` swaps the two roles without copying, and `step`
//! computes a whole generation into the staged buffer before flipping, so
//! that every neighbour lookup of a step sees the pre-step board.

use vstd::prelude::*;

use crate::rules::{
    all_dead, cell_of, in_bounds, lemma_offset_in_range, lemma_offset_injective,
    lemma_pointwise_next_generation, neighbour_count, next_cell, next_generation, offset_of,
};

verus! {

/// The error the grid reports when a coordinate lies off the board.
#[derive(Clone, Copy, Debug, PartialEq, Eq, Structural)]
pub enum GridError {
    OutOfRange,
}

/// The interface a driver reads, seeds and advances a simulation through.
///
/// The spec functions give each implementation a mathematical model: its
/// invariant `wf`, its dimensions, and the row-major contents of its
/// current and staged generations. Every method's contract is stated over
/// that model, so a driver needs nothing but this trait.
pub trait Grid: Sized {
    /// The implementation's internal invariant: `create` establishes it
    /// and every method preserves it.
    spec fn wf(&self) -> bool;

    /// Horizontal size of the board, as a mathematical integer.
    spec fn spec_width(&self) -> int;

    /// Vertical size of the board, as a mathematical integer.
    spec fn spec_height(&self) -> int;

    /// The current generation, row-major: the cells that `get` reads.
    spec fn cells(&self) -> Seq<bool>;

    /// The staged generation, row-major: the cells that `set` writes,
    /// promoted to current by the next `flip`.
    spec fn staged(&self) -> Seq<bool>;

    /// Which of the two buffer roles holds the current generation: 0 or 1.
    /// `flip` and `step` toggle it; every other operation leaves it alone.
    spec fn spec_active(&self) -> int;

    /// What the invariant hands every caller: positive dimensions whose
    /// cell count fits the machine, both generations exactly that long,
    /// and a buffer index of 0 or 1.
    proof fn wf_facts(&self)
        requires
            self.wf(),
        ensures
            0 < self.spec_width(),
            0 < self.spec_height(),
            self.spec_width() * self.spec_height() <= usize::MAX,
            self.cells().len() == self.spec_width() * self.spec_height(),
            self.staged().len() == self.spec_width() * self.spec_height(),
            0 <= self.spec_active() <= 1,
    ;

    /// Allocate a board with the given positive dimensions, every cell
    /// dead in both generations, and buffer 0 current.
    fn create(width: usize, height: usize) -> (g: Self)
        requires
            0 < width,
            0 < height,
            width * height <= usize::MAX,
        ensures
            g.wf(),
            g.spec_width() == width,
            g.spec_height() == height,
            g.spec_active() == 0,
            g.cells().len() == width * height,
            g.staged().len() == width * height,
            all_dead(g.cells()),
            all_dead(g.staged()),
    ;

    /// Get the state of the specified cell in the current generation.
    fn get(&self, x: usize, y: usize) -> (alive: bool)
        requires
            self.wf(),
            x < self.spec_width(),
            y < self.spec_height(),
        ensures
            alive == cell_of(self.cells(), self.spec_width(), x as int, y as int),
    ;

    /// Set the state of the specified cell in the staged generation,
    /// leaving the current one untouched: a pattern placed by `set`
    /// becomes visible only after a `flip`.
    fn set(&mut self, x: usize, y: usize, val: bool)
        requires
            old(self).wf(),
            x < old(self).spec_width(),
            y < old(self).spec_height(),
        ensures
            final(self).wf(),
            final(self).spec_width() == old(self).spec_width(),
            final(self).spec_height() == old(self).spec_height(),
            final(self).spec_active() == old(self).spec_active(),
            final(self).cells() == old(self).cells(),
            final(self).staged() == old(self).staged().update(
                offset_of(old(self).spec_width(), x as int, y as int),
                val,
            ),
    ;

    /// Overwrite every cell of the current generation with an independent
    /// random boolean, each alive with probability one half. The staged
    /// generation is untouched: the random seeding is visible at once,
    /// with no flip needed.
    fn randomise(&mut self)
        requires
            old(self).wf(),
        ensures
            final(self).wf(),
            final(self).spec_width() == old(self).spec_width(),
            final(self).spec_height() == old(self).spec_height(),
            final(self).spec_active() == old(self).spec_active(),
            final(self).staged() == old(self).staged(),
            final(self).cells().len() == old(self).cells().len(),
    ;

    /// Swap the roles of the two generations, so the staged one becomes
    /// current. A pure index toggle: no cell is read or written.
    fn flip(&mut self)
        requires
            old(self).wf(),
        ensures
            final(self).wf(),
            final(self).spec_width() == old(self).spec_width(),
            final(self).spec_height() == old(self).spec_height(),
            final(self).spec_active() == 1 - old(self).spec_active(),
            final(self).cells() == old(self).staged(),
            final(self).staged() == old(self).cells(),
    ;

    /// Advance the board by exactly one generation: the new current
    /// generation is `next_generation` of the old one, and the old one is
    /// left as the staged generation.
    fn step(&mut self)
        requires
            old(self).wf(),
        ensures
            final(self).wf(),
            final(self).spec_width() == old(self).spec_width(),
            final(self).spec_height() == old(self).spec_height(),
            final(self).spec_active() == 1 - old(self).spec_active(),
            final(self).staged() == old(self).cells(),
            final(self).cells() == next_generation(
                old(self).cells(),
                old(self).spec_width(),
                old(self).spec_height(),
            ),
            forall|x: int, y: int|
                in_bounds(old(self).spec_width(), old(self).spec_height(), x, y)
                    ==> #[trigger] cell_of(final(self).cells(), old(self).spec_width(), x, y)
                    == next_cell(
                    old(self).cells(),
                    old(self).spec_width(),
                    old(self).spec_height(),
                    x,
                    y,
                ),
    ;

    /// Horizontal size of the board, in cells.
    fn get_width(&self) -> (w: usize)
        ensures
            w == self.spec_width(),
    ;

    /// Vertical size of the board, in cells.
    fn get_height(&self) -> (h: usize)
        ensures
            h == self.spec_height(),
    ;
}

/// Main Game-of-Life area: a fixed-size board with double-buffered storage.
pub struct BoolGrid {
    /// Horizontal size, in cells; fixed for the lifetime of the grid.
    pub width: usize,
    /// Vertical size, in cells; fixed for the lifetime of the grid.
    pub height: usize,
    /// Cell storage read when `active_buffer` is 0, written when it is 1.
    buf0: Vec<bool>,
    /// Cell storage read when `active_buffer` is 1, written when it is 0.
    buf1: Vec<bool>,
    /// Which buffer currently holds the readable generation: 0 or 1.
    active_buffer: usize,
}

impl BoolGrid {
    /// Returns the index of the staged buffer: the one of the two that is
    /// not currently readable.
    pub fn next_location(&self) -> (r: usize)
        requires
            self.wf(),
        ensures
            r == 1 - self.spec_active(),
            r <= 1,
    {
        (self.active_buffer + 1) % 2
    }

    /// Convert on-board coordinates into a buffer index.
    pub fn get_offset(&self, x: usize, y: usize) -> (ofs: usize)
        requires
            self.wf(),
            x < self.spec_width(),
            y < self.spec_height(),
        ensures
            ofs == offset_of(self.spec_width(), x as int, y as int),
            ofs < self.spec_width() * self.spec_height(),
    {
        proof {
            lemma_offset_in_range(self.width as int, self.height as int, x as int, y as int);
        }
        y * self.width + x
    }

    /// Count the live cells among the up-to-8 neighbours of `(x, y)`.
    /// Neighbour positions that fall off the board are skipped, not
    /// treated as dead or wrapped around.
    pub fn count_neighbours(&self, x: usize, y: usize) -> (n: usize)
        requires
            self.wf(),
            x < self.spec_width(),
            y < self.spec_height(),
        ensures
            n == neighbour_count(
                self.cells(),
                self.spec_width(),
                self.spec_height(),
                x as int,
                y as int,
            ),
            n <= 8,
    {
        let mut n: usize = 0;
        if x > 0 && y > 0 && self.get(x - 1, y - 1) {
            n = n + 1;
        }
        if y > 0 && self.get(x, y - 1) {
            n = n + 1;
        }
        if x + 1 < self.width && y > 0 && self.get(x + 1, y - 1) {
            n = n + 1;
        }
        if x > 0 && self.get(x - 1, y) {
            n = n + 1;
        }
        if x + 1 < self.width && self.get(x + 1, y) {
            n = n + 1;
        }
        if x > 0 && y + 1 < self.height && self.get(x - 1, y + 1) {
            n = n + 1;
        }
        if y + 1 < self.height && self.get(x, y + 1) {
            n = n + 1;
        }
        if x + 1 < self.width && y + 1 < self.height && self.get(x + 1, y + 1) {
            n = n + 1;
        }
        n
    }

    /// Apply the transition rule to the specified cell and return its
    /// state in the next generation.
    pub fn calculate_next_cell_state(&self, x: usize, y: usize) -> (alive: bool)
        requires
            self.wf(),
            x < self.spec_width(),
            y < self.spec_height(),
        ensures
            alive == next_cell(
                self.cells(),
                self.spec_width(),
                self.spec_height(),
                x as int,
                y as int,
            ),
    {
        let neighbours = self.count_neighbours(x, y);
        neighbours == 3 || (self.get(x, y) && neighbours == 2)
    }

    /// `create` behind an explicit check: rejects a zero dimension, or
    /// dimensions whose cell count does not fit the machine, instead of
    /// demanding them ruled out up front.
    pub fn try_create(width: usize, height: usize) -> (r: Option<BoolGrid>)
        ensures
            r is Some <==> 0 < width && 0 < height && width * height <= usize::MAX,
            r matches Some(g) ==> {
                &&& g.wf()
                &&& g.spec_width() == width
                &&& g.spec_height() == height
                &&& g.cells().len() == width * height
                &&& g.staged().len() == width * height
                &&& all_dead(g.cells())
                &&& all_dead(g.staged())
            },
    {
        if width == 0 || height == 0 {
            return None;
        }
        match width.checked_mul(height) {
            Some(_) => Some(BoolGrid::create(width, height)),
            None => None,
        }
    }

    /// `get` behind an explicit bounds check: succeeds exactly on the
    /// coordinates of the board, and reports the out-of-range error on
    /// every other.
    pub fn try_get(&self, x: usize, y: usize) -> (r: Result<bool, GridError>)
        requires
            self.wf(),
        ensures
            r is Ok <==> x < self.spec_width() && y < self.spec_height(),
            r matches Ok(alive) ==> alive == cell_of(
                self.cells(),
                self.spec_width(),
                x as int,
                y as int,
            ),
            r matches Err(e) ==> e == GridError::OutOfRange,
    {
        if x < self.width && y < self.height {
            Ok(self.get(x, y))
        } else {
            Err(GridError::OutOfRange)
        }
    }

    /// `set` behind an explicit bounds check: stages the write exactly on
    /// the coordinates of the board, and reports the out-of-range error,
    /// changing nothing, on every other.
    pub fn try_set(&mut self, x: usize, y: usize, val: bool) -> (r: Result<(), GridError>)
        requires
            old(self).wf(),
        ensures
            r is Ok <==> x < old(self).spec_width() && y < old(self).spec_height(),
            r is Ok ==> {
                &&& final(self).wf()
                &&& final(self).spec_width() == old(self).spec_width()
                &&& final(self).spec_height() == old(self).spec_height()
                &&& final(self).cells() == old(self).cells()
                &&& final(self).staged() == old(self).staged().update(
                    offset_of(old(self).spec_width(), x as int, y as int),
                    val,
                )
            },
            r matches Err(e) ==> e == GridError::OutOfRange && *final(self) == *old(self),
    {
        if x < self.width && y < self.height {
            self.set(x, y, val);
            Ok(())
        } else {
            Err(GridError::OutOfRange)
        }
    }

    /// Overwrite the whole current generation with the given values,
    /// row-major: afterwards the cell at `(x, y)` holds
    /// `vals[y * width + x]`, visible at once with no flip. The staged
    /// generation, the dimensions and the buffer roles are untouched.
    /// This is the verified half of `randomise`: it does all the writing,
    /// whatever source the values were drawn from.
    pub fn fill_current(&mut self, vals: &Vec<bool>)
        requires
            old(self).wf(),
            vals@.len() == old(self).spec_width() * old(self).spec_height(),
        ensures
            final(self).wf(),
            final(self).spec_width() == old(self).spec_width(),
            final(self).spec_height() == old(self).spec_height(),
            final(self).spec_active() == old(self).spec_active(),
            final(self).staged() == old(self).staged(),
            final(self).cells() == vals@,
    {
        let ghost orig = *self;
        let total = self.width * self.height;
        let mut idx: usize = 0;
        while idx < total
            invariant
                self.wf(),
                idx <= total,
                total == self.spec_width() * self.spec_height(),
                self.spec_width() == orig.spec_width(),
                self.spec_height() == orig.spec_height(),
                self.spec_active() == orig.spec_active(),
                self.staged() == orig.staged(),
                vals@.len() == total,
                self.cells().len() == total,
                forall|k: int| 0 <= k < idx ==> self.cells()[k] == vals@[k],
            decreases total - idx,
        {
            let val = vals[idx];
            if self.active_buffer == 0 {
                self.buf0[idx] = val;
            } else {
                self.buf1[idx] = val;
            }
            idx = idx + 1;
        }
        proof {
            assert(self.cells() =~= vals@);
        }
    }
}

impl Grid for BoolGrid {
    /// Positive dimensions whose product fits the machine, both buffers
    /// exactly that long, and a valid buffer index.
    closed spec fn wf(&self) -> bool {
        &&& 0 < self.width
        &&& 0 < self.height
        &&& self.width * self.height <= usize::MAX
        &&& self.buf0@.len() == self.width * self.height
        &&& self.buf1@.len() == self.width * self.height
        &&& self.active_buffer < 2
    }

    closed spec fn spec_width(&self) -> int {
        self.width as int
    }

    closed spec fn spec_height(&self) -> int {
        self.height as int
    }

    /// The contents of the readable buffer.
    closed spec fn cells(&self) -> Seq<bool> {
        if self.active_buffer == 0 {
            self.buf0@
        } else {
            self.buf1@
        }
    }

    /// The contents of the buffer that `set` writes to.
    closed spec fn staged(&self) -> Seq<bool> {
        if self.active_buffer == 0 {
            self.buf1@
        } else {
            self.buf0@
        }
    }

    closed spec fn spec_active(&self) -> int {
        self.active_buffer as int
    }

    proof fn wf_facts(&self) {
    }

    fn create(width: usize, height: usize) -> (g: Self) {
        let n = width * height;
        BoolGrid { width, height, buf0: dead_buffer(n), buf1: dead_buffer(n), active_buffer: 0 }
    }

    fn get(&self, x: usize, y: usize) -> (alive: bool) {
        let ofs = self.get_offset(x, y);
        if self.active_buffer == 0 {
            self.buf0[ofs]
        } else {
            self.buf1[ofs]
        }
    }

    fn set(&mut self, x: usize, y: usize, val: bool) {
        let ofs = self.get_offset(x, y);
        if self.active_buffer == 0 {
            self.buf1[ofs] = val;
        } else {
            self.buf0[ofs] = val;
        }
    }

    fn randomise(&mut self) {
        let total = self.width * self.height;
        let mut vals: Vec<bool> = Vec::new();
        let mut idx: usize = 0;
        while idx < total
            invariant
                idx <= total,
                vals@.len() == idx,
            decreases total - idx,
        {
            vals.push(random_bool());
            idx = idx + 1;
        }
        self.fill_current(&vals);
    }

    fn flip(&mut self) {
        self.active_buffer = (self.active_buffer + 1) % 2;
    }

    fn step(&mut self) {
        let ghost orig = *self;
        let w = self.width;
        let h = self.height;
        let mut x: usize = 0;
        while x < w
            invariant
                self.wf(),
                x <= w,
                w == self.spec_width(),
                h == self.spec_height(),
                self.spec_width() == orig.spec_width(),
                self.spec_height() == orig.spec_height(),
                self.spec_active() == orig.spec_active(),
                self.cells() == orig.cells(),
                forall|i: int, j: int|
                    0 <= i < x && 0 <= j < h ==> #[trigger] cell_of(self.staged(), w as int, i, j)
                        == next_cell(orig.cells(), w as int, h as int, i, j),
            decreases w - x,
        {
            let mut y: usize = 0;
            while y < h
                invariant
                    self.wf(),
                    x < w,
                    y <= h,
                    w == self.spec_width(),
                    h == self.spec_height(),
                    self.spec_width() == orig.spec_width(),
                    self.spec_height() == orig.spec_height(),
                    self.spec_active() == orig.spec_active(),
                    self.cells() == orig.cells(),
                    forall|i: int, j: int|
                        0 <= i < x && 0 <= j < h ==> #[trigger] cell_of(
                            self.staged(),
                            w as int,
                            i,
                            j,
                        ) == next_cell(orig.cells(), w as int, h as int, i, j),
                    forall|j: int|
                        0 <= j < y ==> #[trigger] cell_of(self.staged(), w as int, x as int, j)
                            == next_cell(orig.cells(), w as int, h as int, x as int, j),
                decreases h - y,
            {
                let alive = self.calculate_next_cell_state(x, y);
                let ghost st0 = self.staged();
                self.set(x, y, alive);
                proof {
                    lemma_offset_in_range(w as int, h as int, x as int, y as int);
                    assert forall|i: int, j: int|
                        in_bounds(w as int, h as int, i, j) && !(i == x as int && j
                            == y as int) implies #[trigger] cell_of(self.staged(), w as int, i, j)
                        == cell_of(st0, w as int, i, j) by {
                        lemma_offset_in_range(w as int, h as int, i, j);
                        if offset_of(w as int, i, j) == offset_of(w as int, x as int, y as int) {
                            lemma_offset_injective(w as int, h as int, i, j, x as int, y as int);
                        }
                    }
                    assert(cell_of(self.staged(), w as int, x as int, y as int) == alive);
                    assert forall|i: int, j: int|
                        0 <= i < x && 0 <= j < h implies #[trigger] cell_of(
                        self.staged(),
                        w as int,
                        i,
                        j,
                    ) == next_cell(orig.cells(), w as int, h as int, i, j) by {
                        assert(cell_of(st0, w as int, i, j) == next_cell(
                            orig.cells(),
                            w as int,
                            h as int,
                            i,
                            j,
                        ));
                    }
                    assert forall|j: int|
                        0 <= j < y + 1 implies #[trigger] cell_of(
                        self.staged(),
                        w as int,
                        x as int,
                        j,
                    ) == next_cell(orig.cells(), w as int, h as int, x as int, j) by {
                        if j < y {
                            assert(cell_of(st0, w as int, x as int, j) == next_cell(
                                orig.cells(),
                                w as int,
                                h as int,
                                x as int,
                                j,
                            ));
                        }
                    }
                }
                y = y + 1;
            }
            proof {
                assert forall|i: int, j: int| 0 <= i < x + 1 && 0 <= j < h implies #[trigger] cell_of(
                    self.staged(),
                    w as int,
                    i,
                    j,
                ) == next_cell(orig.cells(), w as int, h as int, i, j) by {
                    if i == x as int {
                        assert(cell_of(self.staged(), w as int, x as int, j) == next_cell(
                            orig.cells(),
                            w as int,
                            h as int,
                            x as int,
                            j,
                        ));
                    }
                }
            }
            x = x + 1;
        }
        proof {
            lemma_pointwise_next_generation(orig.cells(), w as int, h as int, self.staged());
        }
        self.flip();
    }

    fn get_width(&self) -> (w: usize) {
        self.width
    }

    fn get_height(&self) -> (h: usize) {
        self.height
    }
}

/// Relies on rand::random: an independent draw of a uniformly distributed
/// `bool` (the `StandardUniform` distribution: alive with probability one
/// half) from the thread-local generator. Nothing is promised of the value
/// drawn.
#[verifier::external_body]
fn random_bool() -> bool {
    rand::random()
}

/// A buffer of `n` dead cells.
fn dead_buffer(n: usize) -> (v: Vec<bool>)
    ensures
        v@.len() == n,
        all_dead(v@),
{
    let mut v: Vec<bool> = Vec::new();
    let mut i: usize = 0;
    while i < n
        invariant
            i <= n,
            v@.len() == i,
            forall|k: int| 0 <= k < i ==> !v@[k],
        decreases n - i,
    {
        v.push(false);
        i = i + 1;
    }
    v
}

} // verus!
