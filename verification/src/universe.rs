//! The executable universe.

use crate::bitset::bit_at;
use crate::bitset::bit_view;
use crate::bitset::block_bit;
use crate::grid::count_of;
use crate::grid::in_rect;
use crate::grid::wrap;
use crate::grid::Grid;
use fixedbitset::FixedBitSet;
use vstd::arithmetic::div_mod::lemma_mod_add_multiples_vanish;
use vstd::arithmetic::div_mod::lemma_mod_bound;
use vstd::prelude::*;

verus! {

/// The state of one cell.
#[derive(Clone, Copy, Debug, PartialEq, Eq)]
pub enum Cell {
    Dead,
    Alive,
}

/// The grid dimensions and one bit per cell, row by row.
pub struct Universe {
    width: u32,
    height: u32,
    cells: FixedBitSet,
}

/// Whether cell `i` of a freshly made universe is alive.
pub open spec fn seeded(i: int) -> bool {
    i % 2 == 0 || i % 7 == 0
}

/// Whether `(row, col)` occurs in a list of positions.
pub open spec fn listed(positions: Seq<(u32, u32)>, row: int, col: int) -> bool {
    listed_before(positions, positions.len() as int, row, col)
}

/// Whether `(row, col)` occurs among the first `n` of a list of positions.
pub open spec fn listed_before(positions: Seq<(u32, u32)>, n: int, row: int, col: int) -> bool {
    exists|k: int| 0 <= k < n && (#[trigger] positions[k]).0 == row && positions[k].1 == col
}

/// The state that place `k` of the three by three window around
/// `(row, col)` adds to the neighbor count. The places are read row by row;
/// place 4 is the cell itself and adds nothing.
spec fn window_slot(grid: Grid, row: int, col: int, k: int) -> bool {
    k != 4 && grid.neighbor(row, col, k / 3 - 1, k % 3 - 1)
}

/// The number of live neighbors among the first `n` places of the window.
spec fn window_prefix(grid: Grid, row: int, col: int, n: int) -> int
    decreases n,
{
    if n <= 0 {
        0
    } else {
        window_prefix(grid, row, col, n - 1) + count_of(window_slot(grid, row, col, n - 1))
    }
}

/// All nine places of the window together hold the eight neighbors.
proof fn lemma_window_total(grid: Grid, row: int, col: int)
    ensures
        window_prefix(grid, row, col, 9) == grid.live_neighbors(row, col),
{
    reveal_with_fuel(window_prefix, 10);
}

/// Going `delta` places forward on a ring of `n` places, where `delta` is
/// `n - 1`, 0 or 1, is going one place back, staying, or going one place on.
proof fn lemma_wrapped_delta(x: int, n: int, step: int, delta: int)
    requires
        0 <= x < n,
        -1 <= step <= 1,
        delta == (if step == -1 {
            n - 1
        } else {
            step
        }),
    ensures
        (x + delta) % n == wrap(x + step, n as nat),
        0 <= (x + delta) % n < n,
{
    if step == -1 {
        lemma_mod_add_multiples_vanish(x - 1, n);
    }
    lemma_mod_bound(x + delta, n);
}

impl View for Universe {
    type V = Grid;

    closed spec fn view(&self) -> Grid {
        Grid { width: self.width as nat, height: self.height as nat, cells: bit_view(self.cells) }
    }
}

impl Universe {
    /// The bit set holds one bit per position, and their number fits the
    /// dimension type.
    pub closed spec fn wf(&self) -> bool {
        &&& self@.wf()
        &&& self.width * self.height <= u32::MAX
    }

    /// A well-formed universe has a well-formed view.
    pub proof fn lemma_wf_view(&self)
        requires
            self.wf(),
        ensures
            self@.wf(),
            self@.width <= u32::MAX,
            self@.height <= u32::MAX,
            self@.width * self@.height <= u32::MAX,
    {
    }

    /// A 64 by 64 universe with the fixed starting pattern.
    pub fn new() -> (universe: Universe)
        ensures
            universe.wf(),
            universe@ == (Grid { width: 64, height: 64, cells: Seq::new(4096, |i: int| seeded(i)) }),
    {
        let width: u32 = 64;
        let height: u32 = 64;
        let size: usize = (width * height) as usize;
        let mut cells = FixedBitSet::with_capacity(size);
        for i in 0..size
            invariant
                size == 4096,
                bit_view(cells).len() == size,
                forall|k: int| 0 <= k < i ==> bit_view(cells)[k] == seeded(k),
        {
            cells.set(i, i % 2 == 0 || i % 7 == 0);
        }
        let universe = Universe { width, height, cells };
        assert(universe@.cells =~= Seq::new(4096, |i: int| seeded(i)));
        universe
    }

    /// The number of columns.
    pub fn width(&self) -> (w: u32)
        ensures
            w == self@.width,
    {
        self.width
    }

    /// The number of rows.
    pub fn height(&self) -> (h: u32)
        ensures
            h == self@.height,
    {
        self.height
    }

    /// Changes the number of columns. Every cell of the resized grid is
    /// dead, whatever the grid held before.
    pub fn set_width(&mut self, width: u32)
        requires
            width * old(self)@.height <= u32::MAX,
        ensures
            final(self).wf(),
            final(self)@ == Grid::dead(width as nat, old(self)@.height),
    {
        self.width = width;
        self.init_cells();
    }

    /// Changes the number of rows. Every cell of the resized grid is dead,
    /// whatever the grid held before.
    pub fn set_height(&mut self, height: u32)
        requires
            old(self)@.width * height <= u32::MAX,
        ensures
            final(self).wf(),
            final(self)@ == Grid::dead(old(self)@.width, height as nat),
    {
        self.height = height;
        self.init_cells();
    }

    /// Kills every cell and keeps the dimensions.
    pub fn clear(&mut self)
        requires
            old(self).wf(),
        ensures
            final(self).wf(),
            final(self)@ == Grid::dead(old(self)@.width, old(self)@.height),
    {
        self.init_cells();
    }

    /// Replaces every cell by the outcome of a draw: cell `i`, counted row by
    /// row, is alive exactly if `draws[i]` is true.
    pub fn random(&mut self, draws: &[bool])
        requires
            old(self).wf(),
            draws@.len() == old(self)@.width * old(self)@.height,
        ensures
            final(self).wf(),
            final(self)@ == (Grid {
                width: old(self)@.width,
                height: old(self)@.height,
                cells: draws@,
            }),
    {
        let size: usize = (self.width * self.height) as usize;
        let mut cells = FixedBitSet::with_capacity(size);
        for i in 0..size
            invariant
                size == draws@.len(),
                bit_view(cells).len() == size,
                forall|k: int| 0 <= k < i ==> bit_view(cells)[k] == draws@[k],
        {
            cells.set(i, draws[i]);
        }
        self.cells = cells;
        assert(self@.cells =~= draws@);
    }

    /// The cells, one bit each, row by row.
    pub fn get_cells(&self) -> (cells: &FixedBitSet)
        ensures
            bit_view(*cells) == self@.cells,
    {
        &self.cells
    }

    /// Makes every listed `(row, column)` position alive and leaves the
    /// other cells as they are.
    pub fn set_cells(&mut self, cells: &[(u32, u32)])
        requires
            old(self).wf(),
            forall|k: int|
                0 <= k < cells@.len() ==> old(self)@.in_bounds(
                    (#[trigger] cells@[k]).0 as int,
                    cells@[k].1 as int,
                ),
        ensures
            final(self).wf(),
            final(self)@.width == old(self)@.width,
            final(self)@.height == old(self)@.height,
            forall|r: int, c: int|
                old(self)@.in_bounds(r, c) ==> #[trigger] final(self)@.alive(r, c) == (old(
                    self,
                )@.alive(r, c) || listed(cells@, r, c)),
    {
        for k in 0..cells.len()
            invariant
                self.wf(),
                self@.width == old(self)@.width,
                self@.height == old(self)@.height,
                forall|n: int|
                    0 <= n < cells@.len() ==> old(self)@.in_bounds(
                        (#[trigger] cells@[n]).0 as int,
                        cells@[n].1 as int,
                    ),
                forall|r: int, c: int|
                    old(self)@.in_bounds(r, c) ==> #[trigger] self@.alive(r, c) == (old(
                        self,
                    )@.alive(r, c) || listed_before(cells@, k as int, r, c)),
        {
            let (row, col) = cells[k];
            let ghost before = self@;
            self.set_cell(row, col, true);
            proof {
                assert forall|r: int, c: int| old(self)@.in_bounds(r, c) implies #[trigger] self@.alive(
                    r,
                    c,
                ) == (old(self)@.alive(r, c) || listed_before(cells@, k + 1, r, c)) by {
                    assert(before.alive(r, c) == (old(self)@.alive(r, c) || listed_before(
                        cells@,
                        k as int,
                        r,
                        c,
                    )));
                    if r == row && c == col {
                        assert(cells@[k as int].0 == r && cells@[k as int].1 == c);
                    }
                }
            }
        }
    }

    /// The packed storage of the cells: 32-bit blocks, as many as the cells
    /// need, cell `i` being bit `i % 32`, counted from the least significant
    /// bit, of block `i / 32`. The view is good until the universe is next
    /// changed.
    pub fn cells(&self) -> (blocks: &[u32])
        ensures
            blocks@.len() == (self@.cells.len() + 31) / 32,
            forall|i: int|
                0 <= i < self@.cells.len() ==> block_bit(blocks@[i / 32], i % 32)
                    == #[trigger] self@.cells[i],
    {
        self.cells.as_slice()
    }

    /// The place of `(row, column)` in the bit set.
    pub fn get_index(&self, row: u32, column: u32) -> (idx: usize)
        requires
            self.wf(),
            self@.in_bounds(row as int, column as int),
        ensures
            idx == self@.index(row as int, column as int),
            idx < self@.cells.len(),
    {
        proof {
            self@.lemma_index_in_range(row as int, column as int);
        }
        (row * self.width + column) as usize
    }

    /// Replaces the bit set by one of `width * height` dead cells.
    fn init_cells(&mut self)
        requires
            old(self).width * old(self).height <= u32::MAX,
        ensures
            final(self).wf(),
            final(self)@ == Grid::dead(old(self)@.width, old(self)@.height),
    {
        let size: usize = (self.width * self.height) as usize;
        let mut cells = FixedBitSet::with_capacity(size);
        for i in 0..size
            invariant
                bit_view(cells) == Seq::new(size as nat, |k: int| false),
        {
            cells.set(i, false);
            assert(bit_view(cells) =~= Seq::new(size as nat, |k: int| false));
        }
        self.cells = cells;
    }

    /// Writes the state of one cell.
    pub(crate) fn set_cell(&mut self, row: u32, column: u32, alive: bool)
        requires
            old(self).wf(),
            old(self)@.in_bounds(row as int, column as int),
        ensures
            final(self).wf(),
            final(self)@.width == old(self)@.width,
            final(self)@.height == old(self)@.height,
            final(self)@.cells == old(self)@.cells.update(
                old(self)@.index(row as int, column as int),
                alive,
            ),
            forall|r: int, c: int|
                old(self)@.in_bounds(r, c) ==> #[trigger] final(self)@.alive(r, c) == (if r == row
                    && c == column {
                    alive
                } else {
                    old(self)@.alive(r, c)
                }),
    {
        let idx = self.get_index(row, column);
        self.cells.set(idx, alive);
        proof {
            let before = old(self)@;
            assert forall|r: int, c: int| before.in_bounds(r, c) implies #[trigger] self@.alive(r, c)
                == (if r == row && c == column {
                alive
            } else {
                before.alive(r, c)
            }) by {
                before.lemma_index_in_range(r, c);
                if before.index(r, c) == before.index(row as int, column as int) {
                    before.lemma_index_injective(r, c, row as int, column as int);
                }
            }
        }
    }

    /// Kills every cell of the half-open rectangle from `start` to `end`,
    /// each a `(row, column)` pair, and touches no other cell.
    pub fn clear_cells(&mut self, start: (u32, u32), end: (u32, u32))
        requires
            old(self).wf(),
            start.0 < end.0 && start.1 < end.1 ==> end.0 <= old(self)@.height && end.1 <= old(
                self,
            )@.width,
        ensures
            final(self).wf(),
            final(self)@.width == old(self)@.width,
            final(self)@.height == old(self)@.height,
            forall|r: int, c: int|
                old(self)@.in_bounds(r, c) ==> #[trigger] final(self)@.alive(r, c) == (!in_rect(
                    (start.0 as int, start.1 as int),
                    (end.0 as int, end.1 as int),
                    r,
                    c,
                ) && old(self)@.alive(r, c)),
    {
        let mut row: u32 = start.0;
        while row < end.0
            invariant
                self.wf(),
                self@.width == old(self)@.width,
                self@.height == old(self)@.height,
                start.0 <= row,
                row <= end.0 || row == start.0,
                start.0 < end.0 && start.1 < end.1 ==> end.0 <= self@.height && end.1
                    <= self@.width,
                forall|r: int, c: int|
                    old(self)@.in_bounds(r, c) ==> #[trigger] self@.alive(r, c) == (!in_rect(
                        (start.0 as int, start.1 as int),
                        (row as int, end.1 as int),
                        r,
                        c,
                    ) && old(self)@.alive(r, c)),
            decreases end.0 - row,
        {
            let mut column: u32 = start.1;
            while column < end.1
                invariant
                    self.wf(),
                    self@.width == old(self)@.width,
                    self@.height == old(self)@.height,
                    start.0 <= row < end.0,
                    start.1 <= column,
                    column <= end.1 || column == start.1,
                    start.0 < end.0 && start.1 < end.1 ==> end.0 <= self@.height && end.1
                        <= self@.width,
                    forall|r: int, c: int|
                        old(self)@.in_bounds(r, c) ==> #[trigger] self@.alive(r, c) == (!(in_rect(
                            (start.0 as int, start.1 as int),
                            (row as int, end.1 as int),
                            r,
                            c,
                        ) || (r == row && start.1 <= c < column)) && old(self)@.alive(r, c)),
                decreases end.1 - column,
            {
                self.set_cell(row, column, false);
                column += 1;
            }
            row += 1;
        }
    }

    /// Counts the live cells among the eight neighbors of `(row, column)`,
    /// going around the edges of the grid. The neighbors are found by adding
    /// `height - 1`, 0 or 1 to the row and `width - 1`, 0 or 1 to the column,
    /// modulo the height and the width; the cell itself, reached by adding
    /// nothing, is left out. The sums are taken in 64 bits, so that no grid
    /// is too large for them.
    pub fn live_neighbor_count(&self, row: u32, column: u32) -> (count: u8)
        requires
            self.wf(),
            self@.in_bounds(row as int, column as int),
        ensures
            count == self@.live_neighbors(row as int, column as int),
            count <= 8,
    {
        let row_deltas: [u32; 3] = [self.height - 1, 0, 1];
        let column_deltas: [u32; 3] = [self.width - 1, 0, 1];
        let mut count: u8 = 0;
        let mut i: usize = 0;
        while i < 3
            invariant
                self.wf(),
                self@.in_bounds(row as int, column as int),
                row_deltas@ == seq![(self.height - 1) as u32, 0u32, 1u32],
                column_deltas@ == seq![(self.width - 1) as u32, 0u32, 1u32],
                i <= 3,
                count <= 3 * i,
                count == window_prefix(self@, row as int, column as int, 3 * i),
            decreases 3 - i,
        {
            let mut j: usize = 0;
            while j < 3
                invariant
                    self.wf(),
                    self@.in_bounds(row as int, column as int),
                    row_deltas@ == seq![(self.height - 1) as u32, 0u32, 1u32],
                    column_deltas@ == seq![(self.width - 1) as u32, 0u32, 1u32],
                    i < 3,
                    j <= 3,
                    count <= 3 * i + j,
                    count == window_prefix(self@, row as int, column as int, 3 * i + j),
                decreases 3 - j,
            {
                if !(i == 1 && j == 1) {
                    let height = self.height as u64;
                    let width = self.width as u64;
                    let neighbor_row = ((row as u64 + row_deltas[i] as u64) % height) as u32;
                    let neighbor_col = ((column as u64 + column_deltas[j] as u64) % width) as u32;
                    proof {
                        lemma_wrapped_delta(
                            row as int,
                            self.height as int,
                            i - 1,
                            row_deltas[i as int] as int,
                        );
                        lemma_wrapped_delta(
                            column as int,
                            self.width as int,
                            j - 1,
                            column_deltas[j as int] as int,
                        );
                    }
                    let idx = self.get_index(neighbor_row, neighbor_col);
                    if bit_at(&self.cells, idx) {
                        count += 1;
                    }
                }
                j += 1;
            }
            i += 1;
        }
        proof {
            lemma_window_total(self@, row as int, column as int);
        }
        count
    }

    /// Advances the universe by one generation. Every cell of the new
    /// generation is computed from the old one.
    pub fn tick(&mut self)
        requires
            old(self).wf(),
        ensures
            final(self).wf(),
            final(self)@ == old(self)@.step(),
    {
        let mut next = self.cells.clone();
        let ghost grid = self@;
        for row in 0..self.height
            invariant
                self.wf(),
                self@ == grid,
                grid == old(self)@,
                bit_view(next).len() == grid.cells.len(),
                forall|r: int, c: int|
                    0 <= r < row && 0 <= c < grid.width ==> bit_view(next)[grid.index(r, c)]
                        == #[trigger] grid.next_alive(r, c),
        {
            for col in 0..self.width
                invariant
                    self.wf(),
                    self@ == grid,
                    grid == old(self)@,
                    row < grid.height,
                    bit_view(next).len() == grid.cells.len(),
                    forall|r: int, c: int|
                        (0 <= r < row && 0 <= c < grid.width) || (r == row && 0 <= c < col)
                            ==> bit_view(next)[grid.index(r, c)] == #[trigger] grid.next_alive(
                            r,
                            c,
                        ),
            {
                let idx = self.get_index(row, col);
                let cell = bit_at(&self.cells, idx);
                let live_neighbors = self.live_neighbor_count(row, col);
                next.set(
                    idx,
                    match (cell, live_neighbors) {
                        (true, x) if x < 2 => false,
                        (true, 2) | (true, 3) => true,
                        (true, x) if x > 3 => false,
                        (false, 3) => true,
                        (curr_state, _) => curr_state,
                    },
                );
                proof {
                    assert forall|r: int, c: int|
                        (0 <= r < row && 0 <= c < grid.width) || (r == row && 0 <= c < col + 1)
                        implies bit_view(next)[grid.index(r, c)] == #[trigger] grid.next_alive(
                        r,
                        c,
                    ) by {
                        grid.lemma_index_in_range(r, c);
                        if grid.index(r, c) == idx {
                            grid.lemma_index_injective(r, c, row as int, col as int);
                        }
                    }
                }
            }
        }
        self.cells = next;
        proof {
            let after = self@.cells;
            let step = grid.step().cells;
            assert(after.len() == step.len());
            assert forall|i: int| 0 <= i < after.len() implies after[i] == step[i] by {
                grid.lemma_index_position(i);
            }
            assert(after =~= step);
        }
    }

    /// Flips the state of the cell at `(row, column)`.
    pub fn toggle_cell(&mut self, row: u32, column: u32)
        requires
            old(self).wf(),
            old(self)@.in_bounds(row as int, column as int),
        ensures
            final(self).wf(),
            final(self)@.width == old(self)@.width,
            final(self)@.height == old(self)@.height,
            forall|r: int, c: int|
                old(self)@.in_bounds(r, c) ==> #[trigger] final(self)@.alive(r, c) == (if r == row
                    && c == column {
                    !old(self)@.alive(r, c)
                } else {
                    old(self)@.alive(r, c)
                }),
    {
        let idx = self.get_index(row, column);
        self.cells.toggle(idx);
        proof {
            let before = old(self)@;
            assert forall|r: int, c: int| before.in_bounds(r, c) implies #[trigger] self@.alive(r, c)
                == (if r == row && c == column {
                !before.alive(r, c)
            } else {
                before.alive(r, c)
            }) by {
                before.lemma_index_in_range(r, c);
                if before.index(r, c) == before.index(row as int, column as int) {
                    before.lemma_index_injective(r, c, row as int, column as int);
                }
            }
        }
    }
}

} // verus!
