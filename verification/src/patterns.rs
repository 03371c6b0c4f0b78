//! The patterns that a universe can stamp into its grid.

use crate::grid::in_rect;
use crate::universe::Universe;
use vstd::prelude::*;

verus! {

/// The distance of `i` from zero.
pub open spec fn abs(i: int) -> int {
    if i < 0 {
        -i
    } else {
        i
    }
}

/// The glider, as offsets from its centre: whether the cell `dr` rows and
/// `dc` columns from the centre belongs to it.
pub open spec fn glider_shape(dr: int, dc: int) -> bool {
    ||| (dr == 0 && dc == -1)
    ||| (dr == -1 && dc == 1)
    ||| (dr == 0 && dc == 1)
    ||| (dr == 1 && dc == 0)
    ||| (dr == 1 && dc == 1)
}

/// The twelve cells of the pulsar that lie up and left of its centre.
pub open spec fn pulsar_quadrant(dr: int, dc: int) -> bool {
    ||| (dr == -6 && dc == -2)
    ||| (dr == -6 && dc == -3)
    ||| (dr == -6 && dc == -4)
    ||| (dr == -4 && dc == -6)
    ||| (dr == -3 && dc == -6)
    ||| (dr == -2 && dc == -6)
    ||| (dr == -4 && dc == -1)
    ||| (dr == -3 && dc == -1)
    ||| (dr == -2 && dc == -1)
    ||| (dr == -1 && dc == -2)
    ||| (dr == -1 && dc == -3)
    ||| (dr == -1 && dc == -4)
}

/// The pulsar, as offsets from its centre: the quadrant mirrored in the
/// centre row and in the centre column.
pub open spec fn pulsar_shape(dr: int, dc: int) -> bool {
    pulsar_quadrant(-abs(dr), -abs(dc))
}

impl Universe {
    /// Stamps a glider centred on `(row, column)`: the four by four square
    /// from two cells up and left of the centre is cleared, then the five
    /// cells of the glider are made alive. The square must lie inside the
    /// grid; nothing wraps around.
    pub fn insert_glider(&mut self, row: u32, column: u32)
        requires
            old(self).wf(),
            row >= 2,
            column >= 2,
            row + 2 <= old(self)@.height,
            column + 2 <= old(self)@.width,
        ensures
            final(self).wf(),
            final(self)@.width == old(self)@.width,
            final(self)@.height == old(self)@.height,
            forall|r: int, c: int|
                old(self)@.in_bounds(r, c) ==> #[trigger] final(self)@.alive(r, c) == (if in_rect(
                    (row - 2, column - 2),
                    (row + 2, column + 2),
                    r,
                    c,
                ) {
                    glider_shape(r - row, c - column)
                } else {
                    old(self)@.alive(r, c)
                }),
    {
        proof {
            old(self).lemma_wf_view();
        }
        self.clear_cells((row - 2, column - 2), (row + 2, column + 2));
        self.set_cell(row, column - 1, true);
        self.set_cell(row - 1, column + 1, true);
        self.set_cell(row, column + 1, true);
        self.set_cell(row + 1, column, true);
        self.set_cell(row + 1, column + 1, true);
    }

    /// Stamps a pulsar centred on `(row, column)`: the fourteen by fourteen
    /// square from seven cells up and left of the centre is cleared, then the
    /// forty-eight cells of the pulsar are made alive. The square must lie
    /// inside the grid; nothing wraps around.
    pub fn insert_pulsar(&mut self, row: u32, column: u32)
        requires
            old(self).wf(),
            row >= 7,
            column >= 7,
            row + 7 <= old(self)@.height,
            column + 7 <= old(self)@.width,
        ensures
            final(self).wf(),
            final(self)@.width == old(self)@.width,
            final(self)@.height == old(self)@.height,
            forall|r: int, c: int|
                old(self)@.in_bounds(r, c) ==> #[trigger] final(self)@.alive(r, c) == (if in_rect(
                    (row - 7, column - 7),
                    (row + 7, column + 7),
                    r,
                    c,
                ) {
                    pulsar_shape(r - row, c - column)
                } else {
                    old(self)@.alive(r, c)
                }),
    {
        proof {
            old(self).lemma_wf_view();
        }
        self.clear_cells((row - 7, column - 7), (row + 7, column + 7));

        self.set_cell(row - 6, column - 2, true);
        self.set_cell(row - 6, column - 3, true);
        self.set_cell(row - 6, column - 4, true);

        self.set_cell(row - 4, column - 6, true);
        self.set_cell(row - 3, column - 6, true);
        self.set_cell(row - 2, column - 6, true);

        self.set_cell(row - 4, column - 1, true);
        self.set_cell(row - 3, column - 1, true);
        self.set_cell(row - 2, column - 1, true);

        self.set_cell(row - 1, column - 2, true);
        self.set_cell(row - 1, column - 3, true);
        self.set_cell(row - 1, column - 4, true);

        self.set_cell(row - 6, column + 2, true);
        self.set_cell(row - 6, column + 3, true);
        self.set_cell(row - 6, column + 4, true);

        self.set_cell(row - 4, column + 6, true);
        self.set_cell(row - 3, column + 6, true);
        self.set_cell(row - 2, column + 6, true);

        self.set_cell(row - 4, column + 1, true);
        self.set_cell(row - 3, column + 1, true);
        self.set_cell(row - 2, column + 1, true);

        self.set_cell(row - 1, column + 2, true);
        self.set_cell(row - 1, column + 3, true);
        self.set_cell(row - 1, column + 4, true);

        self.set_cell(row + 6, column - 2, true);
        self.set_cell(row + 6, column - 3, true);
        self.set_cell(row + 6, column - 4, true);

        self.set_cell(row + 4, column - 6, true);
        self.set_cell(row + 3, column - 6, true);
        self.set_cell(row + 2, column - 6, true);

        self.set_cell(row + 4, column - 1, true);
        self.set_cell(row + 3, column - 1, true);
        self.set_cell(row + 2, column - 1, true);

        self.set_cell(row + 1, column - 2, true);
        self.set_cell(row + 1, column - 3, true);
        self.set_cell(row + 1, column - 4, true);

        self.set_cell(row + 6, column + 2, true);
        self.set_cell(row + 6, column + 3, true);
        self.set_cell(row + 6, column + 4, true);

        self.set_cell(row + 4, column + 6, true);
        self.set_cell(row + 3, column + 6, true);
        self.set_cell(row + 2, column + 6, true);

        self.set_cell(row + 4, column + 1, true);
        self.set_cell(row + 3, column + 1, true);
        self.set_cell(row + 2, column + 1, true);

        self.set_cell(row + 1, column + 2, true);
        self.set_cell(row + 1, column + 3, true);
        self.set_cell(row + 1, column + 4, true);
    }
}

} // verus!
