//! The grid of cells and the generation-step engine.
//!
//! A `Grid` is a fixed-size, bounded (non-wrapping) rectangular board of
//! binary cells, stored row-major in a flat vector and indexed by an
//! `(x, y)` coordinate pair. Neighborhoods are the up-to-8 adjacent
//! positions that lie inside the bounds; positions outside the board are
//! excluded, never wrapped.

use vstd::prelude::*;

verus! {

/// The Game of Life rule for a single cell: given whether the cell is
/// alive and how many of its (up to 8) in-bounds neighbors are alive,
/// decide whether it is alive in the next generation.
///
/// A live cell survives with 2 or 3 live neighbors (it dies of
/// underpopulation below 2 and of overpopulation above 3); a dead cell
/// becomes alive with exactly 3 live neighbors (reproduction); any other
/// dead cell stays dead.
pub open spec fn next_state(alive: bool, live_neighbors: nat) -> bool {
    if alive {
        2 <= live_neighbors <= 3
    } else {
        live_neighbors == 3
    }
}

/// Whether `(x, y)` lies inside a `w` by `h` board.
pub open spec fn in_bounds(w: nat, h: nat, x: int, y: int) -> bool {
    0 <= x < w && 0 <= y < h
}

/// A fixed-size board of binary cells, `width` by `height`, stored
/// row-major: the cell at `(x, y)` sits at index `x * height + y`.
pub struct Grid {
    cells: Vec<bool>,
    width: usize,
    height: usize,
}

impl Grid {
    /// Well-formedness: the flat storage holds exactly one cell per
    /// in-bounds position.
    pub closed spec fn wf(self) -> bool {
        self.cells.len() == self.width * self.height
    }

    /// The board width, as a mathematical number.
    pub closed spec fn spec_width(self) -> nat {
        self.width as nat
    }

    /// The board height, as a mathematical number.
    pub closed spec fn spec_height(self) -> nat {
        self.height as nat
    }

    /// Whether the cell at `(x, y)` is alive. Meaningful for in-bounds
    /// positions of a well-formed grid.
    pub closed spec fn alive(self, x: int, y: int) -> bool {
        self.cells@[x * self.height + y]
    }
}

/// 1 if `(x, y)` is an in-bounds live cell of `g`, else 0. One term of
/// the neighbor sum.
pub open spec fn alive_bit(g: Grid, x: int, y: int) -> nat {
    if in_bounds(g.spec_width(), g.spec_height(), x, y) && g.alive(x, y) {
        1
    } else {
        0
    }
}

/// How many of the up-to-8 neighbors of `(x, y)` are in-bounds live
/// cells of `g`. The cell itself is never counted.
pub open spec fn live_neighbors(g: Grid, x: int, y: int) -> nat {
    alive_bit(g, x - 1, y - 1) + alive_bit(g, x, y - 1) + alive_bit(g, x + 1, y - 1)
        + alive_bit(g, x - 1, y) + alive_bit(g, x + 1, y) + alive_bit(g, x - 1, y + 1)
        + alive_bit(g, x, y + 1) + alive_bit(g, x + 1, y + 1)
}

/// Whether the cell at `(x, y)` is alive in the generation after `g`:
/// the single-cell rule applied to its current state and live-neighbor
/// count.
pub open spec fn step_alive(g: Grid, x: int, y: int) -> bool {
    next_state(g.alive(x, y), live_neighbors(g, x, y))
}

/// The position `(x, y)` as a one-element sequence if it is in bounds,
/// else the empty sequence. One link of `neighbor_list`.
pub open spec fn maybe_pos(w: nat, h: nat, x: int, y: int) -> Seq<(usize, usize)> {
    if in_bounds(w, h, x, y) {
        seq![(x as usize, y as usize)]
    } else {
        Seq::empty()
    }
}

/// The in-bounds neighbors of `(x, y)` on a `w` by `h` board, in a
/// fixed circular order starting to the right of the cell.
pub open spec fn neighbor_list(w: nat, h: nat, x: int, y: int) -> Seq<(usize, usize)> {
    maybe_pos(w, h, x + 1, y) + maybe_pos(w, h, x + 1, y + 1) + maybe_pos(w, h, x, y + 1)
        + maybe_pos(w, h, x - 1, y + 1) + maybe_pos(w, h, x - 1, y)
        + maybe_pos(w, h, x - 1, y - 1) + maybe_pos(w, h, x, y - 1)
        + maybe_pos(w, h, x + 1, y - 1)
}

/// Row-major indices stay below the storage length: if `x < w` and
/// `y < h` then `x * h + y < w * h`.
proof fn lemma_row_major_bound(h: int, x: int, y: int, w: int)
    by (nonlinear_arith)
    requires
        0 <= x < w,
        0 <= y < h,
    ensures
        0 <= x * h + y < w * h,
{
}

/// Distinct in-bounds positions have distinct row-major indices.
proof fn lemma_row_major_injective(h: int, x1: int, y1: int, x2: int, y2: int)
    by (nonlinear_arith)
    requires
        0 <= y1 < h,
        0 <= y2 < h,
        0 <= x1,
        0 <= x2,
        x1 != x2 || y1 != y2,
    ensures
        x1 * h + y1 != x2 * h + y2,
{
}

impl Grid {
    /// Build a `width` by `height` grid with every cell dead.
    pub fn new(width: usize, height: usize) -> (g: Grid)
        requires
            1 <= width,
            1 <= height,
            width * height <= usize::MAX,
        ensures
            g.wf(),
            g.spec_width() == width,
            g.spec_height() == height,
            forall|x: int, y: int|
                in_bounds(width as nat, height as nat, x, y) ==> !g.alive(x, y),
    {
        let total: usize = width * height;
        let mut cells: Vec<bool> = Vec::new();
        let mut i: usize = 0;
        while i < total
            invariant
                i <= total,
                cells.len() == i,
                forall|k: int| 0 <= k < i ==> !cells@[k],
            decreases total - i,
        {
            cells.push(false);
            i = i + 1;
        }
        let g = Grid { cells, width, height };
        proof {
            assert forall|x: int, y: int|
                in_bounds(width as nat, height as nat, x, y) implies !g.alive(x, y) by {
                lemma_row_major_bound(height as int, x, y, width as int);
            }
        }
        g
    }

    /// The board width.
    pub fn width(&self) -> (w: usize)
        ensures
            w == self.spec_width(),
    {
        self.width
    }

    /// The board height.
    pub fn height(&self) -> (h: usize)
        ensures
            h == self.spec_height(),
    {
        self.height
    }

    /// Whether the cell at `(x, y)` is alive.
    pub fn is_alive(&self, x: usize, y: usize) -> (r: bool)
        requires
            self.wf(),
            x < self.spec_width(),
            y < self.spec_height(),
        ensures
            r == self.alive(x as int, y as int),
    {
        proof {
            lemma_row_major_bound(self.height as int, x as int, y as int, self.width as int);
        }
        self.cells[x * self.height + y]
    }

    /// Enumerate the in-bounds neighbors of `(x, y)`: the up-to-8
    /// adjacent positions (diagonals included) that lie on the board,
    /// in a fixed circular order. The cell itself is never listed.
    pub fn neighbors(&self, x: usize, y: usize) -> (r: Vec<(usize, usize)>)
        requires
            self.wf(),
            x < self.spec_width(),
            y < self.spec_height(),
        ensures
            r@ == neighbor_list(self.spec_width(), self.spec_height(), x as int, y as int),
    {
        let mut r: Vec<(usize, usize)> = Vec::new();
        if x + 1 < self.width {
            r.push((x + 1, y));
        }
        if x + 1 < self.width && y + 1 < self.height {
            r.push((x + 1, y + 1));
        }
        if y + 1 < self.height {
            r.push((x, y + 1));
        }
        if x > 0 && y + 1 < self.height {
            r.push((x - 1, y + 1));
        }
        if x > 0 {
            r.push((x - 1, y));
        }
        if x > 0 && y > 0 {
            r.push((x - 1, y - 1));
        }
        if y > 0 {
            r.push((x, y - 1));
        }
        if x + 1 < self.width && y > 0 {
            r.push((x + 1, y - 1));
        }
        proof {
            assert(r@ =~= neighbor_list(
                self.spec_width(),
                self.spec_height(),
                x as int,
                y as int,
            ));
        }
        r
    }

    /// Count the in-bounds live neighbors of `(x, y)`: the up-to-8
    /// adjacent cells, the cell itself excluded.
    pub fn live_neighbor_count(&self, x: usize, y: usize) -> (n: usize)
        requires
            self.wf(),
            x < self.spec_width(),
            y < self.spec_height(),
        ensures
            n == live_neighbors(*self, x as int, y as int),
            n <= 8,
    {
        let mut n: usize = 0;
        if x > 0 && y > 0 && self.is_alive(x - 1, y - 1) {
            n = n + 1;
        }
        if y > 0 && self.is_alive(x, y - 1) {
            n = n + 1;
        }
        if x + 1 < self.width && y > 0 && self.is_alive(x + 1, y - 1) {
            n = n + 1;
        }
        if x > 0 && self.is_alive(x - 1, y) {
            n = n + 1;
        }
        if x + 1 < self.width && self.is_alive(x + 1, y) {
            n = n + 1;
        }
        if x > 0 && y + 1 < self.height && self.is_alive(x - 1, y + 1) {
            n = n + 1;
        }
        if y + 1 < self.height && self.is_alive(x, y + 1) {
            n = n + 1;
        }
        if x + 1 < self.width && y + 1 < self.height && self.is_alive(x + 1, y + 1) {
            n = n + 1;
        }
        n
    }

    /// Compute the next generation: a grid of the same dimensions in
    /// which every cell's state is the single-cell rule applied to its
    /// current state and live-neighbor count. All decisions are made
    /// against the current generation (simultaneous update); `self` is
    /// not changed.
    pub fn step(&self) -> (g: Grid)
        requires
            self.wf(),
        ensures
            g.wf(),
            g.spec_width() == self.spec_width(),
            g.spec_height() == self.spec_height(),
            forall|x: int, y: int|
                in_bounds(self.spec_width(), self.spec_height(), x, y)
                    ==> g.alive(x, y) == step_alive(*self, x, y),
    {
        let mut cells: Vec<bool> = Vec::new();
        let mut x: usize = 0;
        while x < self.width
            invariant
                self.wf(),
                x <= self.width,
                cells.len() == x * self.height,
                forall|i: int, j: int|
                    0 <= i < x && 0 <= j < self.height
                        ==> #[trigger] cells@[i * self.height + j] == step_alive(*self, i, j),
            decreases self.width - x,
        {
            let mut y: usize = 0;
            while y < self.height
                invariant
                    self.wf(),
                    x < self.width,
                    y <= self.height,
                    cells.len() == x * self.height + y,
                    forall|i: int, j: int|
                        0 <= i < x && 0 <= j < self.height
                            ==> #[trigger] cells@[i * self.height + j] == step_alive(*self, i, j),
                    forall|j: int|
                        0 <= j < y
                            ==> #[trigger] cells@[x * self.height + j] == step_alive(*self, x as int, j),
                decreases self.height - y,
            {
                let alive: bool = self.is_alive(x, y);
                let count: usize = self.live_neighbor_count(x, y);
                let next: bool = if alive {
                    2 <= count && count <= 3
                } else {
                    count == 3
                };
                cells.push(next);
                proof {
                    assert forall|i: int, j: int|
                        0 <= i < x && 0 <= j < self.height
                            implies #[trigger] cells@[i * self.height + j]
                                == step_alive(*self, i, j) by {
                        lemma_row_major_bound(self.height as int, i, j, x as int);
                    }
                }
                y = y + 1;
            }
            proof {
                assert((x as int + 1) * self.height == x as int * self.height + self.height)
                    by (nonlinear_arith);
                assert forall|i: int, j: int|
                    0 <= i < x + 1 && 0 <= j < self.height
                        implies #[trigger] cells@[i * self.height + j] == step_alive(*self, i, j)
                    by {
                    if i == x {
                        assert(cells@[x as int * self.height + j] == step_alive(*self, x as int, j));
                    }
                }
            }
            x = x + 1;
        }
        let g = Grid { cells, width: self.width, height: self.height };
        g
    }

    /// Flip the cell at `(x, y)`; every other cell keeps its state and
    /// the dimensions are unchanged.
    pub fn toggle(&mut self, x: usize, y: usize)
        requires
            old(self).wf(),
            x < old(self).spec_width(),
            y < old(self).spec_height(),
        ensures
            final(self).wf(),
            final(self).spec_width() == old(self).spec_width(),
            final(self).spec_height() == old(self).spec_height(),
            final(self).alive(x as int, y as int) == !old(self).alive(x as int, y as int),
            forall|i: int, j: int|
                in_bounds(old(self).spec_width(), old(self).spec_height(), i, j)
                    && (i != x || j != y)
                    ==> final(self).alive(i, j) == old(self).alive(i, j),
    {
        proof {
            lemma_row_major_bound(self.height as int, x as int, y as int, self.width as int);
        }
        let idx: usize = x * self.height + y;
        let cur: bool = self.cells[idx];
        self.cells.set(idx, !cur);
        proof {
            assert forall|i: int, j: int|
                in_bounds(old(self).spec_width(), old(self).spec_height(), i, j)
                    && (i != x || j != y)
                    implies final(self).alive(i, j) == old(self).alive(i, j) by {
                lemma_row_major_bound(self.height as int, i, j, self.width as int);
                lemma_row_major_injective(self.height as int, i, j, x as int, y as int);
            }
        }
    }
}

/// The single-cell rule, restated clause by clause: underpopulation,
/// survival, overpopulation, reproduction, and dead cells otherwise
/// staying dead.
pub proof fn lemma_rule_cases(alive: bool, n: nat)
    ensures
        alive && n < 2 ==> !next_state(alive, n),
        alive && (n == 2 || n == 3) ==> next_state(alive, n),
        alive && n > 3 ==> !next_state(alive, n),
        !alive && n == 3 ==> next_state(alive, n),
        !alive && n != 3 ==> !next_state(alive, n),
{
}

/// Neighbor enumeration yields exactly 3 positions for a corner cell,
/// 5 for a non-corner edge cell, and 8 for an interior cell.
pub proof fn lemma_neighbor_counts(w: nat, h: nat, x: int, y: int)
    requires
        2 <= w,
        2 <= h,
        in_bounds(w, h, x, y),
    ensures
        (x == 0 || x == w - 1) && (y == 0 || y == h - 1) ==> neighbor_list(w, h, x, y).len()
            == 3,
        (x == 0 || x == w - 1) && 0 < y < h - 1 ==> neighbor_list(w, h, x, y).len() == 5,
        (y == 0 || y == h - 1) && 0 < x < w - 1 ==> neighbor_list(w, h, x, y).len() == 5,
        0 < x < w - 1 && 0 < y < h - 1 ==> neighbor_list(w, h, x, y).len() == 8,
{
}

/// Stepping is deterministic: two grids of the same dimensions that
/// agree cell-for-cell step to grids that agree cell-for-cell.
pub proof fn lemma_step_deterministic(g1: Grid, g2: Grid)
    requires
        g1.spec_width() == g2.spec_width(),
        g1.spec_height() == g2.spec_height(),
        forall|x: int, y: int|
            in_bounds(g1.spec_width(), g1.spec_height(), x, y) ==> (#[trigger] g1.alive(x, y))
                == g2.alive(x, y),
    ensures
        forall|x: int, y: int|
            in_bounds(g1.spec_width(), g1.spec_height(), x, y) ==> (#[trigger] step_alive(
                g1,
                x,
                y,
            )) == step_alive(g2, x, y),
{
    assert forall|x: int, y: int|
        in_bounds(g1.spec_width(), g1.spec_height(), x, y) implies (#[trigger] step_alive(
        g1,
        x,
        y,
    )) == step_alive(g2, x, y) by {
        assert(alive_bit(g1, x - 1, y - 1) == alive_bit(g2, x - 1, y - 1));
        assert(alive_bit(g1, x, y - 1) == alive_bit(g2, x, y - 1));
        assert(alive_bit(g1, x + 1, y - 1) == alive_bit(g2, x + 1, y - 1));
        assert(alive_bit(g1, x - 1, y) == alive_bit(g2, x - 1, y));
        assert(alive_bit(g1, x + 1, y) == alive_bit(g2, x + 1, y));
        assert(alive_bit(g1, x - 1, y + 1) == alive_bit(g2, x - 1, y + 1));
        assert(alive_bit(g1, x, y + 1) == alive_bit(g2, x, y + 1));
        assert(alive_bit(g1, x + 1, y + 1) == alive_bit(g2, x + 1, y + 1));
    }
}

/// An empty board is a still life: if every in-bounds cell of `g` is
/// dead, every cell of the next generation is dead too.
pub proof fn lemma_empty_grid_stable(g: Grid)
    requires
        forall|x: int, y: int|
            in_bounds(g.spec_width(), g.spec_height(), x, y) ==> !(#[trigger] g.alive(x, y)),
    ensures
        forall|x: int, y: int|
            in_bounds(g.spec_width(), g.spec_height(), x, y) ==> !(#[trigger] step_alive(
                g,
                x,
                y,
            )),
{
    assert forall|x: int, y: int|
        in_bounds(g.spec_width(), g.spec_height(), x, y) implies !(#[trigger] step_alive(
        g,
        x,
        y,
    )) by {
        assert(alive_bit(g, x - 1, y - 1) == 0);
        assert(alive_bit(g, x, y - 1) == 0);
        assert(alive_bit(g, x + 1, y - 1) == 0);
        assert(alive_bit(g, x - 1, y) == 0);
        assert(alive_bit(g, x + 1, y) == 0);
        assert(alive_bit(g, x - 1, y + 1) == 0);
        assert(alive_bit(g, x, y + 1) == 0);
        assert(alive_bit(g, x + 1, y + 1) == 0);
        assert(live_neighbors(g, x, y) == 0);
    }
}

/// `g` holds exactly a 2-by-2 block of live cells whose lowest corner
/// is `(a, b)`, wholly on the board; every other cell is dead.
pub open spec fn is_block(g: Grid, a: int, b: int) -> bool {
    &&& 0 <= a && a + 1 < g.spec_width()
    &&& 0 <= b && b + 1 < g.spec_height()
    &&& forall|x: int, y: int|
        in_bounds(g.spec_width(), g.spec_height(), x, y) ==> ((#[trigger] g.alive(x, y)) <==> (
        a <= x <= a + 1 && b <= y <= b + 1))
}

/// 1 if `(x, y)` lies in the 2-by-2 block at `(a, b)`, else 0.
pub open spec fn block_bit(a: int, b: int, x: int, y: int) -> nat {
    if a <= x <= a + 1 && b <= y <= b + 1 {
        1
    } else {
        0
    }
}

/// The 2-by-2 block is a still life: every live cell of the block has
/// exactly 3 live neighbors and survives, and no dead cell gains
/// enough neighbors to be born, so `step` leaves the grid unchanged.
pub proof fn lemma_block_still_life(g: Grid, a: int, b: int)
    requires
        is_block(g, a, b),
    ensures
        forall|x: int, y: int|
            in_bounds(g.spec_width(), g.spec_height(), x, y) ==> (#[trigger] step_alive(
                g,
                x,
                y,
            )) == g.alive(x, y),
{
    assert forall|x: int, y: int|
        in_bounds(g.spec_width(), g.spec_height(), x, y) implies (#[trigger] step_alive(
        g,
        x,
        y,
    )) == g.alive(x, y) by {
        assert(alive_bit(g, x - 1, y - 1) == block_bit(a, b, x - 1, y - 1));
        assert(alive_bit(g, x, y - 1) == block_bit(a, b, x, y - 1));
        assert(alive_bit(g, x + 1, y - 1) == block_bit(a, b, x + 1, y - 1));
        assert(alive_bit(g, x - 1, y) == block_bit(a, b, x - 1, y));
        assert(alive_bit(g, x + 1, y) == block_bit(a, b, x + 1, y));
        assert(alive_bit(g, x - 1, y + 1) == block_bit(a, b, x - 1, y + 1));
        assert(alive_bit(g, x, y + 1) == block_bit(a, b, x, y + 1));
        assert(alive_bit(g, x + 1, y + 1) == block_bit(a, b, x + 1, y + 1));
    }
}

} // verus!
