//! The mathematical model of a universe: a rectangle of booleans on a torus.

use vstd::prelude::*;

verus! {

/// One for a live cell, zero for a dead one.
pub open spec fn count_of(alive: bool) -> int {
    if alive {
        1
    } else {
        0
    }
}

/// The coordinate that `i` names on a ring of `n` places.
pub open spec fn wrap(i: int, n: nat) -> int {
    i % (n as int)
}

/// The transition rule: a live cell survives with two or three live
/// neighbors, a dead cell comes alive with exactly three.
pub open spec fn rule(alive: bool, live_neighbors: int) -> bool {
    if alive {
        live_neighbors == 2 || live_neighbors == 3
    } else {
        live_neighbors == 3
    }
}

/// Whether `(row, col)` lies in the half-open rectangle from `start` to `end`.
pub open spec fn in_rect(start: (int, int), end: (int, int), row: int, col: int) -> bool {
    start.0 <= row < end.0 && start.1 <= col < end.1
}

/// A `width` by `height` rectangle of cells in row-major order; `true` is
/// alive.
pub struct Grid {
    pub width: nat,
    pub height: nat,
    pub cells: Seq<bool>,
}

impl Grid {
    /// The grid of the given dimensions in which every cell is dead.
    pub open spec fn dead(width: nat, height: nat) -> Grid {
        Grid { width, height, cells: Seq::new(width * height, |i: int| false) }
    }

    /// There is exactly one cell per position.
    pub open spec fn wf(self) -> bool {
        self.cells.len() == self.width * self.height
    }

    /// Whether `(row, col)` names a position of the grid.
    pub open spec fn in_bounds(self, row: int, col: int) -> bool {
        0 <= row < self.height && 0 <= col < self.width
    }

    /// The place of `(row, col)` in `cells`.
    pub open spec fn index(self, row: int, col: int) -> int {
        row * self.width + col
    }

    /// The state of the cell at `(row, col)`.
    pub open spec fn alive(self, row: int, col: int) -> bool {
        self.cells[self.index(row, col)]
    }

    /// Whether no cell is alive.
    pub open spec fn all_dead(self) -> bool {
        forall|i: int| 0 <= i < self.cells.len() ==> !self.cells[i]
    }

    /// The state of the cell `dr` rows and `dc` columns away from
    /// `(row, col)`, going around the edges.
    pub open spec fn neighbor(self, row: int, col: int, dr: int, dc: int) -> bool {
        self.alive(wrap(row + dr, self.height), wrap(col + dc, self.width))
    }

    /// How many of the eight neighbors of `(row, col)` are alive. On a grid
    /// less than three wide or high one cell fills several of the eight
    /// places and is counted once for each.
    pub open spec fn live_neighbors(self, row: int, col: int) -> int {
        count_of(self.neighbor(row, col, -1, -1)) + count_of(self.neighbor(row, col, -1, 0))
            + count_of(self.neighbor(row, col, -1, 1)) + count_of(self.neighbor(row, col, 0, -1))
            + count_of(self.neighbor(row, col, 0, 1)) + count_of(self.neighbor(row, col, 1, -1))
            + count_of(self.neighbor(row, col, 1, 0)) + count_of(self.neighbor(row, col, 1, 1))
    }

    /// The state of `(row, col)` one generation later.
    pub open spec fn next_alive(self, row: int, col: int) -> bool {
        rule(self.alive(row, col), self.live_neighbors(row, col))
    }

    /// The next generation: every cell is computed from this grid, none from
    /// a cell already replaced.
    pub open spec fn step(self) -> Grid {
        Grid {
            width: self.width,
            height: self.height,
            cells: Seq::new(
                self.cells.len(),
                |i: int| self.next_alive(i / (self.width as int), i % (self.width as int)),
            ),
        }
    }

    /// Every position has a place in `cells`.
    pub proof fn lemma_index_in_range(self, row: int, col: int)
        requires
            self.in_bounds(row, col),
        ensures
            0 <= self.index(row, col) < self.width * self.height,
    {
        let w = self.width as int;
        let h = self.height as int;
        assert(0 <= row * w + col < w * h) by (nonlinear_arith)
            requires
                0 <= row < h,
                0 <= col < w,
        ;
    }

    /// Two positions with one place in `cells` are the same position.
    pub proof fn lemma_index_injective(self, r1: int, c1: int, r2: int, c2: int)
        requires
            self.in_bounds(r1, c1),
            self.in_bounds(r2, c2),
            self.index(r1, c1) == self.index(r2, c2),
        ensures
            r1 == r2,
            c1 == c2,
    {
        let w = self.width as int;
        assert(r1 == r2 && c1 == c2) by (nonlinear_arith)
            requires
                0 <= c1 < w,
                0 <= c2 < w,
                r1 * w + c1 == r2 * w + c2,
        ;
    }

    /// Every place in `cells` belongs to the position found by dividing by
    /// the width.
    pub proof fn lemma_index_position(self, i: int)
        requires
            0 <= i < self.width * self.height,
        ensures
            self.in_bounds(i / (self.width as int), i % (self.width as int)),
            self.index(i / (self.width as int), i % (self.width as int)) == i,
    {
        let w = self.width as int;
        let h = self.height as int;
        assert(w > 0) by (nonlinear_arith)
            requires
                0 <= i < w * h,
                w >= 0,
        ;
        assert(0 <= i / w < h && 0 <= i % w < w && (i / w) * w + i % w == i) by (nonlinear_arith)
            requires
                0 <= i < w * h,
                w > 0,
        ;
    }
}

} // verus!
