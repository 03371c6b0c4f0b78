//! Laws of the grid model, proved once for every grid.

use crate::grid::wrap;
use crate::grid::Grid;
use vstd::arithmetic::div_mod::lemma_mod_add_multiples_vanish;
use vstd::arithmetic::div_mod::lemma_mod_bound;
use vstd::arithmetic::div_mod::lemma_mod_self_0;
use vstd::arithmetic::div_mod::lemma_small_mod;
use vstd::prelude::*;

verus! {

/// The position whose place in `cells` is `i`.
pub open spec fn position(grid: Grid, i: int) -> (int, int) {
    (i / (grid.width as int), i % (grid.width as int))
}

/// The live cells of `grid` are exactly the two by two block whose upper
/// left cell is `(row, col)`; a block that starts in the last row or column
/// goes on in the first.
pub open spec fn is_block(grid: Grid, row: int, col: int) -> bool {
    forall|r: int, c: int|
        grid.in_bounds(r, c) ==> #[trigger] grid.alive(r, c) == ((r == row || r == wrap(
            row + 1,
            grid.height,
        )) && (c == col || c == wrap(col + 1, grid.width)))
}

/// The live cells of `grid` are exactly the three cells of row `row` around
/// column `col`, going around the edges.
pub open spec fn is_row_blinker(grid: Grid, row: int, col: int) -> bool {
    forall|r: int, c: int|
        grid.in_bounds(r, c) ==> #[trigger] grid.alive(r, c) == (r == row && (c == wrap(
            col - 1,
            grid.width,
        ) || c == col || c == wrap(col + 1, grid.width)))
}

/// The live cells of `grid` are exactly the three cells of column `col`
/// around row `row`, going around the edges.
pub open spec fn is_column_blinker(grid: Grid, row: int, col: int) -> bool {
    forall|r: int, c: int|
        grid.in_bounds(r, c) ==> #[trigger] grid.alive(r, c) == (c == col && (r == wrap(
            row - 1,
            grid.height,
        ) || r == row || r == wrap(row + 1, grid.height)))
}

/// On a ring of `n` places the neighbors of place `x` are the places next to
/// it, the last place being next to the first.
pub proof fn lemma_wrap_neighbors(x: int, n: nat)
    requires
        0 <= x < n,
    ensures
        wrap(x, n) == x,
        wrap(x + 1, n) == (if x + 1 == n {
            0
        } else {
            x + 1
        }),
        wrap(x - 1, n) == (if x == 0 {
            n - 1
        } else {
            x - 1
        }),
{
    let m = n as int;
    lemma_small_mod(x as nat, n);
    if x + 1 == n {
        lemma_mod_self_0(m);
    } else {
        lemma_small_mod((x + 1) as nat, n);
    }
    if x == 0 {
        lemma_mod_add_multiples_vanish(-1, m);
        lemma_small_mod((n - 1) as nat, n);
    } else {
        lemma_small_mod((x - 1) as nat, n);
    }
}

/// The index mapping is a bijection between the positions of the grid and
/// the places `0 .. width * height`: every position has a place in that
/// range, dividing the place by the width gives the position back, and every
/// place in the range is the place of the position so found.
pub proof fn lemma_index_bijection(grid: Grid)
    ensures
        forall|r: int, c: int|
            grid.in_bounds(r, c) ==> 0 <= #[trigger] grid.index(r, c) < grid.width * grid.height
                && position(grid, grid.index(r, c)) == (r, c),
        forall|i: int|
            0 <= i < grid.width * grid.height ==> grid.in_bounds(
                (#[trigger] position(grid, i)).0,
                position(grid, i).1,
            ) && grid.index(position(grid, i).0, position(grid, i).1) == i,
        forall|r1: int, c1: int, r2: int, c2: int|
            grid.in_bounds(r1, c1) && grid.in_bounds(r2, c2) && #[trigger] grid.index(r1, c1)
                == #[trigger] grid.index(r2, c2) ==> r1 == r2 && c1 == c2,
{
    assert forall|i: int| 0 <= i < grid.width * grid.height implies grid.in_bounds(
        (#[trigger] position(grid, i)).0,
        position(grid, i).1,
    ) && grid.index(position(grid, i).0, position(grid, i).1) == i by {
        grid.lemma_index_position(i);
    }
    assert forall|r: int, c: int| grid.in_bounds(r, c) implies 0 <= #[trigger] grid.index(r, c)
        < grid.width * grid.height && position(grid, grid.index(r, c)) == (r, c) by {
        grid.lemma_index_in_range(r, c);
        let i = grid.index(r, c);
        grid.lemma_index_position(i);
        grid.lemma_index_injective(r, c, position(grid, i).0, position(grid, i).1);
    }
    assert forall|r1: int, c1: int, r2: int, c2: int|
        grid.in_bounds(r1, c1) && grid.in_bounds(r2, c2) && #[trigger] grid.index(r1, c1)
            == #[trigger] grid.index(r2, c2) implies r1 == r2 && c1 == c2 by {
        grid.lemma_index_injective(r1, c1, r2, c2);
    }
}

/// A cell never has more than eight live neighbors.
pub proof fn lemma_live_neighbors_range(grid: Grid, row: int, col: int)
    ensures
        0 <= grid.live_neighbors(row, col) <= 8,
{
}

/// Every cell of a grid made by a resize or a clear is dead.
pub proof fn lemma_dead_grid(width: nat, height: nat)
    ensures
        Grid::dead(width, height).wf(),
        Grid::dead(width, height).all_dead(),
        forall|r: int, c: int|
            Grid::dead(width, height).in_bounds(r, c) ==> !#[trigger] Grid::dead(
                width,
                height,
            ).alive(r, c),
{
    let grid = Grid::dead(width, height);
    assert forall|r: int, c: int| grid.in_bounds(r, c) implies !#[trigger] grid.alive(r, c) by {
        grid.lemma_index_in_range(r, c);
    }
}

/// The cell of the next generation at a position is the transition rule
/// applied to that position.
pub proof fn lemma_step_cell(grid: Grid, row: int, col: int)
    requires
        grid.wf(),
        grid.in_bounds(row, col),
    ensures
        grid.step().wf(),
        grid.step().alive(row, col) == grid.next_alive(row, col),
{
    grid.lemma_index_in_range(row, col);
    let i = grid.index(row, col);
    grid.lemma_index_position(i);
    grid.lemma_index_injective(row, col, position(grid, i).0, position(grid, i).1);
}

/// A grid is fixed by its cells at the positions inside it: two well-formed
/// grids of the same dimensions that agree there are equal.
pub proof fn lemma_grid_extensional(a: Grid, b: Grid)
    requires
        a.wf(),
        b.wf(),
        a.width == b.width,
        a.height == b.height,
        forall|r: int, c: int| a.in_bounds(r, c) ==> #[trigger] a.alive(r, c) == b.alive(r, c),
    ensures
        a == b,
{
    assert forall|i: int| 0 <= i < a.cells.len() implies a.cells[i] == b.cells[i] by {
        a.lemma_index_position(i);
        let p = position(a, i);
        assert(a.alive(p.0, p.1) == b.alive(p.0, p.1));
    }
    assert(a.cells =~= b.cells);
}

/// Nothing is born from nothing: the generation after a grid without a
/// live cell is that same grid.
pub proof fn lemma_step_all_dead(grid: Grid)
    requires
        grid.wf(),
        grid.all_dead(),
    ensures
        grid.step().all_dead(),
        grid.step() == grid,
{
    let next = grid.step();
    assert forall|r: int, c: int| grid.in_bounds(r, c) implies #[trigger] next.alive(r, c)
        == grid.alive(r, c) by {
        lemma_step_cell(grid, r, c);
        lemma_neighbors_dead(grid, r, c);
        grid.lemma_index_in_range(r, c);
    }
    lemma_grid_extensional(next, grid);
}

/// On a grid without a live cell no cell has a live neighbor.
proof fn lemma_neighbors_dead(grid: Grid, row: int, col: int)
    requires
        grid.wf(),
        grid.all_dead(),
        grid.in_bounds(row, col),
    ensures
        grid.live_neighbors(row, col) == 0,
{
    assert forall|dr: int, dc: int| !#[trigger] grid.neighbor(row, col, dr, dc) by {
        lemma_mod_bound(row + dr, grid.height as int);
        lemma_mod_bound(col + dc, grid.width as int);
        grid.lemma_index_in_range(wrap(row + dr, grid.height), wrap(col + dc, grid.width));
    }
}

/// A block is a still life: on a grid at least four wide and four high,
/// a two by two block with no other live cell is its own next generation.
pub proof fn lemma_block_is_still(grid: Grid, row: int, col: int)
    requires
        grid.wf(),
        grid.width >= 4,
        grid.height >= 4,
        grid.in_bounds(row, col),
        is_block(grid, row, col),
    ensures
        grid.step() == grid,
{
    let next = grid.step();
    lemma_wrap_neighbors(row, grid.height);
    lemma_wrap_neighbors(col, grid.width);
    assert forall|r: int, c: int| grid.in_bounds(r, c) implies #[trigger] next.alive(r, c)
        == grid.alive(r, c) by {
        lemma_step_cell(grid, r, c);
        lemma_wrap_neighbors(r, grid.height);
        lemma_wrap_neighbors(c, grid.width);
    }
    lemma_grid_extensional(next, grid);
}

/// A blinker turns by a quarter in one generation: on a grid at least four
/// wide and four high, three live cells in a row, with no other live cell,
/// become the three cells of the column through the middle one.
pub proof fn lemma_row_blinker_turns(grid: Grid, row: int, col: int)
    requires
        grid.wf(),
        grid.width >= 4,
        grid.height >= 4,
        grid.in_bounds(row, col),
        is_row_blinker(grid, row, col),
    ensures
        grid.step().wf(),
        is_column_blinker(grid.step(), row, col),
{
    let next = grid.step();
    lemma_wrap_neighbors(row, grid.height);
    lemma_wrap_neighbors(col, grid.width);
    assert forall|r: int, c: int| next.in_bounds(r, c) implies #[trigger] next.alive(r, c) == (c
        == col && (r == wrap(row - 1, next.height) || r == row || r == wrap(
        row + 1,
        next.height,
    ))) by {
        lemma_step_cell(grid, r, c);
        lemma_wrap_neighbors(r, grid.height);
        lemma_wrap_neighbors(c, grid.width);
    }
}

/// The other quarter turn: three live cells in a column, with no other live
/// cell, become the three cells of the row through the middle one.
pub proof fn lemma_column_blinker_turns(grid: Grid, row: int, col: int)
    requires
        grid.wf(),
        grid.width >= 4,
        grid.height >= 4,
        grid.in_bounds(row, col),
        is_column_blinker(grid, row, col),
    ensures
        grid.step().wf(),
        is_row_blinker(grid.step(), row, col),
{
    let next = grid.step();
    lemma_wrap_neighbors(row, grid.height);
    lemma_wrap_neighbors(col, grid.width);
    assert forall|r: int, c: int| next.in_bounds(r, c) implies #[trigger] next.alive(r, c) == (r
        == row && (c == wrap(col - 1, next.width) || c == col || c == wrap(
        col + 1,
        next.width,
    ))) by {
        lemma_step_cell(grid, r, c);
        lemma_wrap_neighbors(r, grid.height);
        lemma_wrap_neighbors(c, grid.width);
    }
}

/// A blinker has period two: on a grid at least four wide and four high,
/// the generation after a row blinker is the column blinker through its
/// middle cell, and the generation after that is the first grid again.
pub proof fn lemma_blinker_oscillates(grid: Grid, row: int, col: int)
    requires
        grid.wf(),
        grid.width >= 4,
        grid.height >= 4,
        grid.in_bounds(row, col),
        is_row_blinker(grid, row, col),
    ensures
        is_column_blinker(grid.step(), row, col),
        grid.step().step() == grid,
{
    let turned = grid.step();
    lemma_row_blinker_turns(grid, row, col);
    lemma_column_blinker_turns(turned, row, col);
    let back = turned.step();
    assert forall|r: int, c: int| back.in_bounds(r, c) implies #[trigger] back.alive(r, c)
        == grid.alive(r, c) by {
    }
    lemma_grid_extensional(back, grid);
}

} // verus!
