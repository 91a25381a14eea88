//! The interactive control layer: the run/pause state machine, the
//! adjustable tick rate, and the mapping from raw pixel coordinates to
//! grid cells.
//!
//! A `Simulation` owns a `Grid` plus the loop state. The unverified
//! shell around this crate feeds it events (ticks, key presses, mouse
//! moves, clicks) and reads the grid back for drawing; every decision
//! is made here.

use vstd::prelude::*;

verus! {

use vstd::arithmetic::div_mod::lemma_multiply_divide_lt;
use crate::grid::Grid;
use crate::grid::in_bounds;
use crate::grid::step_alive;

/// Whether pixel `(px, py)` lies inside the pixel area of a `w` by `h`
/// board drawn with `cell_size`-pixel cells. Both axes are checked
/// independently against their own ranges.
pub open spec fn pointer_in_bounds(px: int, py: int, w: nat, h: nat, cell_size: nat) -> bool {
    0 <= px < w * cell_size && 0 <= py < h * cell_size
}

/// Map a raw pixel coordinate to the grid cell under it, by integer
/// division with the cell pixel size. Returns `None` exactly when the
/// pointer is outside the board's pixel area.
pub fn pointer_to_cell(px: i64, py: i64, width: usize, height: usize, cell_size: usize) -> (r:
    Option<(usize, usize)>)
    requires
        1 <= width,
        1 <= height,
        1 <= cell_size,
        width * cell_size <= i64::MAX,
        height * cell_size <= i64::MAX,
    ensures
        r is Some <==> pointer_in_bounds(
            px as int,
            py as int,
            width as nat,
            height as nat,
            cell_size as nat,
        ),
        r matches Some(c) ==> c.0 == px as int / cell_size as int && c.1 == py as int
            / cell_size as int && c.0 < width && c.1 < height,
{
    proof {
        assert(width <= width * cell_size && height <= height * cell_size && cell_size <= width
            * cell_size) by (nonlinear_arith)
            requires
                1 <= cell_size,
                1 <= width,
                1 <= height,
        ;
    }
    let wpx: i64 = (width as i64) * (cell_size as i64);
    let hpx: i64 = (height as i64) * (cell_size as i64);
    if 0 <= px && px < wpx && 0 <= py && py < hpx {
        proof {
            lemma_multiply_divide_lt(px as int, cell_size as int, width as int);
            lemma_multiply_divide_lt(py as int, cell_size as int, height as int);
        }
        let cx: usize = (px / (cell_size as i64)) as usize;
        let cy: usize = (py / (cell_size as i64)) as usize;
        Some((cx, cy))
    } else {
        None
    }
}

/// The simulation loop's state: the board, whether stepping is paused,
/// the tick rate in generations per second, the pixel size of a cell,
/// and the cell under the most recent in-bounds pointer position
/// (`None` while the pointer is outside the board).
pub struct Simulation {
    grid: Grid,
    paused: bool,
    rate: u64,
    cell_size: usize,
    cursor: Option<(usize, usize)>,
}

impl Simulation {
    /// The board.
    pub closed spec fn spec_grid(self) -> Grid {
        self.grid
    }

    /// Whether ticks are currently ignored.
    pub closed spec fn spec_paused(self) -> bool {
        self.paused
    }

    /// The tick rate, in generations per second.
    pub closed spec fn spec_rate(self) -> u64 {
        self.rate
    }

    /// The pixel size of one cell.
    pub closed spec fn spec_cell_size(self) -> nat {
        self.cell_size as nat
    }

    /// The cell under the most recent in-bounds pointer position.
    pub closed spec fn spec_cursor(self) -> Option<(usize, usize)> {
        self.cursor
    }

    /// Well-formedness: the board is well-formed, the rate respects its
    /// floor of 1, cells are at least one pixel wide, the board's pixel
    /// area fits in the pixel coordinate type, and a remembered cursor
    /// cell lies on the board.
    pub closed spec fn wf(self) -> bool {
        &&& self.grid.wf()
        &&& 1 <= self.grid.spec_width()
        &&& 1 <= self.grid.spec_height()
        &&& 1 <= self.rate
        &&& 1 <= self.cell_size
        &&& self.grid.spec_width() * self.cell_size <= i64::MAX
        &&& self.grid.spec_height() * self.cell_size <= i64::MAX
        &&& match self.cursor {
            Some(c) => c.0 < self.grid.spec_width() && c.1 < self.grid.spec_height(),
            None => true,
        }
    }

    /// Start a simulation over an all-dead `width` by `height` board,
    /// with the tick rate at its floor of 1 and no remembered pointer
    /// position. Whether it starts paused or running is the caller's
    /// explicit choice, passed as `start_paused`.
    pub fn new(width: usize, height: usize, cell_size: usize, start_paused: bool) -> (s:
        Simulation)
        requires
            1 <= width,
            1 <= height,
            1 <= cell_size,
            width * height <= usize::MAX,
            width * cell_size <= i64::MAX,
            height * cell_size <= i64::MAX,
        ensures
            s.wf(),
            s.spec_paused() == start_paused,
            s.spec_rate() == 1,
            s.spec_cell_size() == cell_size,
            s.spec_cursor() is None,
            s.spec_grid().spec_width() == width,
            s.spec_grid().spec_height() == height,
            forall|x: int, y: int|
                in_bounds(width as nat, height as nat, x, y) ==> !s.spec_grid().alive(x, y),
    {
        Simulation {
            grid: Grid::new(width, height),
            paused: start_paused,
            rate: 1,
            cell_size,
            cursor: None,
        }
    }

    /// The board width.
    pub fn width(&self) -> (w: usize)
        ensures
            w == self.spec_grid().spec_width(),
    {
        self.grid.width()
    }

    /// The board height.
    pub fn height(&self) -> (h: usize)
        ensures
            h == self.spec_grid().spec_height(),
    {
        self.grid.height()
    }

    /// Whether the cell at `(x, y)` is alive.
    pub fn is_cell_alive(&self, x: usize, y: usize) -> (r: bool)
        requires
            self.wf(),
            x < self.spec_grid().spec_width(),
            y < self.spec_grid().spec_height(),
        ensures
            r == self.spec_grid().alive(x as int, y as int),
    {
        self.grid.is_alive(x, y)
    }

    /// Whether ticks are currently ignored.
    pub fn is_paused(&self) -> (r: bool)
        ensures
            r == self.spec_paused(),
    {
        self.paused
    }

    /// The tick rate, in generations per second.
    pub fn rate(&self) -> (r: u64)
        ensures
            r == self.spec_rate(),
    {
        self.rate
    }

    /// The cell under the most recent in-bounds pointer position.
    pub fn cursor(&self) -> (r: Option<(usize, usize)>)
        ensures
            r == self.spec_cursor(),
    {
        self.cursor
    }

    /// One scheduled tick. While running, the board advances one
    /// generation (simultaneous update of every cell); while paused,
    /// the tick is ignored and the board is untouched. The loop state
    /// is never changed by a tick.
    pub fn tick(&mut self)
        requires
            old(self).wf(),
        ensures
            final(self).wf(),
            final(self).spec_paused() == old(self).spec_paused(),
            final(self).spec_rate() == old(self).spec_rate(),
            final(self).spec_cell_size() == old(self).spec_cell_size(),
            final(self).spec_cursor() == old(self).spec_cursor(),
            old(self).spec_paused() ==> final(self).spec_grid() == old(self).spec_grid(),
            !old(self).spec_paused() ==> {
                &&& final(self).spec_grid().spec_width() == old(self).spec_grid().spec_width()
                &&& final(self).spec_grid().spec_height() == old(self).spec_grid().spec_height()
                &&& forall|x: int, y: int|
                    in_bounds(
                        old(self).spec_grid().spec_width(),
                        old(self).spec_grid().spec_height(),
                        x,
                        y,
                    ) ==> final(self).spec_grid().alive(x, y) == step_alive(
                        old(self).spec_grid(),
                        x,
                        y,
                    )
            },
    {
        if !self.paused {
            let next = self.grid.step();
            self.grid = next;
        }
    }

    /// Switch between running and paused; nothing else changes.
    pub fn toggle_pause(&mut self)
        requires
            old(self).wf(),
        ensures
            final(self).wf(),
            final(self).spec_paused() == !old(self).spec_paused(),
            final(self).spec_rate() == old(self).spec_rate(),
            final(self).spec_cell_size() == old(self).spec_cell_size(),
            final(self).spec_cursor() == old(self).spec_cursor(),
            final(self).spec_grid() == old(self).spec_grid(),
    {
        self.paused = !self.paused;
    }

    /// Raise the tick rate by one generation per second. At the top of
    /// the rate's range the request is ignored.
    pub fn increase_rate(&mut self)
        requires
            old(self).wf(),
        ensures
            final(self).wf(),
            final(self).spec_rate() == if old(self).spec_rate() < u64::MAX {
                old(self).spec_rate() + 1
            } else {
                old(self).spec_rate() as int
            },
            final(self).spec_paused() == old(self).spec_paused(),
            final(self).spec_cell_size() == old(self).spec_cell_size(),
            final(self).spec_cursor() == old(self).spec_cursor(),
            final(self).spec_grid() == old(self).spec_grid(),
    {
        if self.rate < u64::MAX {
            self.rate = self.rate + 1;
        }
    }

    /// Lower the tick rate by one generation per second, with a floor
    /// of 1: decrementing below 1 is a no-op.
    pub fn decrease_rate(&mut self)
        requires
            old(self).wf(),
        ensures
            final(self).wf(),
            final(self).spec_rate() == if old(self).spec_rate() > 1 {
                (old(self).spec_rate() - 1) as u64
            } else {
                old(self).spec_rate()
            },
            1 <= final(self).spec_rate(),
            final(self).spec_paused() == old(self).spec_paused(),
            final(self).spec_cell_size() == old(self).spec_cell_size(),
            final(self).spec_cursor() == old(self).spec_cursor(),
            final(self).spec_grid() == old(self).spec_grid(),
    {
        if self.rate > 1 {
            self.rate = self.rate - 1;
        }
    }

    /// Record a pointer move. If the pixel position lies inside the
    /// board's pixel area, the cell under it becomes the remembered
    /// cursor cell; otherwise the cursor is forgotten and later clicks
    /// are dropped. Nothing else changes.
    pub fn mouse_moved(&mut self, px: i64, py: i64)
        requires
            old(self).wf(),
        ensures
            final(self).wf(),
            final(self).spec_cursor() is Some <==> pointer_in_bounds(
                px as int,
                py as int,
                old(self).spec_grid().spec_width(),
                old(self).spec_grid().spec_height(),
                old(self).spec_cell_size(),
            ),
            final(self).spec_cursor() matches Some(c) ==> c.0 == px as int
                / old(self).spec_cell_size() as int && c.1 == py as int
                / old(self).spec_cell_size() as int,
            final(self).spec_paused() == old(self).spec_paused(),
            final(self).spec_rate() == old(self).spec_rate(),
            final(self).spec_cell_size() == old(self).spec_cell_size(),
            final(self).spec_grid() == old(self).spec_grid(),
    {
        let w: usize = self.grid.width();
        let h: usize = self.grid.height();
        self.cursor = pointer_to_cell(px, py, w, h, self.cell_size);
    }

    /// A primary-button click. If a cursor cell is remembered (the
    /// pointer was last seen inside the board), that one cell is
    /// toggled and every other cell keeps its state; otherwise the
    /// click is dropped. The loop state never changes.
    pub fn click(&mut self)
        requires
            old(self).wf(),
        ensures
            final(self).wf(),
            final(self).spec_paused() == old(self).spec_paused(),
            final(self).spec_rate() == old(self).spec_rate(),
            final(self).spec_cell_size() == old(self).spec_cell_size(),
            final(self).spec_cursor() == old(self).spec_cursor(),
            old(self).spec_cursor() is None ==> final(self).spec_grid() == old(
                self,
            ).spec_grid(),
            old(self).spec_cursor() matches Some(c) ==> {
                &&& final(self).spec_grid().spec_width() == old(self).spec_grid().spec_width()
                &&& final(self).spec_grid().spec_height() == old(
                    self,
                ).spec_grid().spec_height()
                &&& final(self).spec_grid().alive(c.0 as int, c.1 as int) == !old(
                    self,
                ).spec_grid().alive(c.0 as int, c.1 as int)
                &&& forall|i: int, j: int|
                    in_bounds(
                        old(self).spec_grid().spec_width(),
                        old(self).spec_grid().spec_height(),
                        i,
                        j,
                    ) && (i != c.0 || j != c.1) ==> final(self).spec_grid().alive(i, j) == old(
                        self,
                    ).spec_grid().alive(i, j)
            },
    {
        if let Some((cx, cy)) = self.cursor {
            self.grid.toggle(cx, cy);
        }
    }
}

} // verus!
