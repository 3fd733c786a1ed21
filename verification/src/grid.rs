use crate::cell::Cell;
use vstd::arithmetic::div_mod::{
    lemma_fundamental_div_mod, lemma_fundamental_div_mod_converse, lemma_mod_add_multiples_vanish,
    lemma_mod_bound, lemma_small_mod,
};
use vstd::prelude::*;

verus! {

/// The mathematical model of a universe: its dimensions and its cells, row by row.
pub struct Grid {
    pub width: nat,
    pub height: nat,
    pub cells: Seq<Cell>,
}

impl Grid {
    /// There is exactly one cell for each pair of a row and a column.
    pub open spec fn wf(self) -> bool {
        self.cells.len() == self.width * self.height
    }

    /// Whether `(row, column)` addresses a cell of the grid.
    pub open spec fn contains(self, row: int, column: int) -> bool {
        0 <= row < self.height && 0 <= column < self.width
    }

    /// The place of `(row, column)` in `cells`.
    pub open spec fn index(self, row: int, column: int) -> int {
        row * self.width + column
    }

    /// The cell at `(row, column)`, which the grid contains.
    pub open spec fn at(self, row: int, column: int) -> Cell
        recommends
            self.contains(row, column),
    {
        self.cells[self.index(row, column)]
    }

    /// The cell at `(row, column)` on the torus: both coordinates wrap around, so
    /// that the row above the first is the last, and likewise for the columns.
    pub open spec fn around(self, row: int, column: int) -> Cell
        recommends
            self.width > 0,
            self.height > 0,
    {
        self.at(row % (self.height as int), column % (self.width as int))
    }

    /// How many of the eight cells that touch `(row, column)` on the torus are alive.
    pub open spec fn live_neighbours(self, row: int, column: int) -> nat {
        self.around(row - 1, column - 1).weight() + self.around(row - 1, column).weight()
            + self.around(row - 1, column + 1).weight() + self.around(row, column - 1).weight()
            + self.around(row, column + 1).weight() + self.around(row + 1, column - 1).weight()
            + self.around(row + 1, column).weight() + self.around(row + 1, column + 1).weight()
    }

    /// The grid of the given dimensions in which every cell is dead.
    pub open spec fn blank(width: nat, height: nat) -> Grid {
        Grid { width, height, cells: Seq::new(width * height, |i: int| Cell::Dead) }
    }

    /// The next generation: every cell follows the rule of the game, each count of
    /// neighbours being taken in `self`.
    pub open spec fn step(self) -> Grid {
        Grid {
            width: self.width,
            height: self.height,
            cells: Seq::new(
                self.cells.len(),
                |i: int|
                    self.cells[i].successor(
                        self.live_neighbours(i / (self.width as int), i % (self.width as int)),
                    ),
            ),
        }
    }

    /// The grid after `n` generations.
    pub open spec fn steps(self, n: nat) -> Grid
        decreases n,
    {
        if n == 0 {
            self
        } else {
            self.step().steps((n - 1) as nat)
        }
    }

    /// The grid in which the cell at `(row, column)` has changed its state and
    /// every other cell is as in `self`.
    pub open spec fn toggle(self, row: int, column: int) -> Grid {
        Grid {
            width: self.width,
            height: self.height,
            cells: self.cells.update(
                self.index(row, column),
                self.cells[self.index(row, column)].flipped(),
            ),
        }
    }

    /// Whether every pair of `coords` addresses a cell of the grid.
    pub open spec fn contains_all(self, coords: Seq<(u32, u32)>) -> bool {
        forall|k: int| 0 <= k < coords.len() ==> self.contains(coords[k].0 as int, coords[k].1 as int)
    }

    /// The grid in which the cells that `coords` names, each by a pair of its row
    /// and its column, are alive, and every other cell is as in `self`.
    pub open spec fn revive(self, coords: Seq<(u32, u32)>) -> Grid {
        Grid {
            width: self.width,
            height: self.height,
            cells: Seq::new(
                self.cells.len(),
                |i: int|
                    if names(coords, i / (self.width as int), i % (self.width as int)) {
                        Cell::Alive
                    } else {
                        self.cells[i]
                    },
            ),
        }
    }

    /// The grid whose cells are what the draws stand for, one draw for each cell.
    pub open spec fn drawn(width: nat, height: nat, draws: Seq<bool>) -> Grid {
        Grid { width, height, cells: Seq::new(width * height, |i: int| Cell::of_draw(draws[i])) }
    }

    /// The place in the rendering of the glyph of the cell at `(row, column)`;
    /// with `width` for the column, the place of the line break that ends the row.
    pub open spec fn text_place(self, row: int, column: int) -> int {
        row * (self.width + 1) + column
    }

    /// The character at the place `k` of the rendering: a line takes `width + 1`
    /// places, the glyphs of the cells of its row and then a line break.
    pub open spec fn text_at(self, k: int) -> char {
        let line = self.width as int + 1;
        if k % line == self.width as int {
            '\n'
        } else {
            self.at(k / line, k % line).glyph()
        }
    }

    /// The rendering of the grid: one line for each row, from the first to the
    /// last; a line holds the glyph of each cell of its row and ends in a line break.
    pub open spec fn text(self) -> Seq<char> {
        Seq::new(self.height * (self.width + 1), |k: int| self.text_at(k))
    }
}

/// Whether one of the pairs of `coords` is that of `row` and `column`.
pub open spec fn names(coords: Seq<(u32, u32)>, row: int, column: int) -> bool {
    exists|k: int| 0 <= k < coords.len() && (#[trigger] coords[k]).0 == row && coords[k].1 == column
}

/// The coordinate that `x` wraps to on an axis of length `n`, for an `x` at most
/// one length away from the axis.
pub open spec fn wrap(x: int, n: int) -> int {
    if x < 0 {
        x + n
    } else if x >= n {
        x - n
    } else {
        x
    }
}

/// On an axis of length `n`, the remainder of a coordinate at most one length
/// away is found by adding or taking away `n` once.
pub proof fn lemma_wrap(x: int, n: int)
    requires
        0 < n,
        -n <= x < 2 * n,
    ensures
        x % n == wrap(x, n),
        0 <= wrap(x, n) < n,
{
    if x < 0 {
        lemma_mod_add_multiples_vanish(x, n);
        lemma_small_mod((n + x) as nat, n as nat);
    } else if x >= n {
        lemma_mod_add_multiples_vanish(x - n, n);
        lemma_small_mod((x - n) as nat, n as nat);
    } else {
        lemma_small_mod(x as nat, n as nat);
    }
}

/// A pair of a row below `height` and a column below `width` has a place below
/// `width * height`, and the place gives the pair back.
pub proof fn lemma_index(row: int, column: int, width: int, height: int)
    requires
        0 <= row < height,
        0 <= column < width,
    ensures
        0 <= row * width + column < width * height,
        (row * width + column) / width == row,
        (row * width + column) % width == column,
{
    assert(row * width + width <= width * height) by (nonlinear_arith)
        requires
            0 <= row < height,
            0 < width,
    ;
    assert(0 <= row * width) by (nonlinear_arith)
        requires
            0 <= row,
            0 < width,
    ;
    lemma_fundamental_div_mod_converse(row * width + column, width, row, column);
}

/// A place below `width * height` is that of one pair of a row below `height`
/// and a column below `width`: its quotient and its remainder by `width`.
pub proof fn lemma_place(i: int, width: int, height: int)
    requires
        0 <= i < width * height,
        0 <= width,
        0 <= height,
    ensures
        0 < width,
        0 <= i / width < height,
        0 <= i % width < width,
        (i / width) * width + i % width == i,
{
    assert(0 < width) by (nonlinear_arith)
        requires
            0 <= i < width * height,
            0 <= width,
    ;
    lemma_fundamental_div_mod(i, width);
    lemma_mod_bound(i, width);
    let q = i / width;
    assert(width * q == q * width) by (nonlinear_arith);
    assert(0 <= q < height) by (nonlinear_arith)
        requires
            0 < width,
            0 <= i < width * height,
            q * width + i % width == i,
            0 <= i % width < width,
    ;
}

} // verus!
