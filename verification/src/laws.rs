use crate::cell::Cell;
use crate::grid::{lemma_index, lemma_place, lemma_wrap, names, Grid};
use vstd::prelude::*;

verus! {

/// A cell has at most eight living neighbours.
pub proof fn law_neighbours_bounded(grid: Grid, row: int, column: int)
    ensures
        grid.live_neighbours(row, column) <= 8,
{
}

/// Whether `x` is `y` or one of the two coordinates next to `y` on an axis of
/// length `n` that wraps around.
pub open spec fn beside(x: int, y: int, n: int) -> bool {
    x == (y - 1) % n || x == y || x == (y + 1) % n
}

/// Whether `(row, column)` is one of the eight cells that touch `(r, c)` on the
/// torus.
pub open spec fn touches(grid: Grid, row: int, column: int, r: int, c: int) -> bool {
    &&& beside(row, r, grid.height as int)
    &&& beside(column, c, grid.width as int)
    &&& row != r || column != c
}

/// On a grid of at least three rows and three columns with a single living
/// cell, each of the eight cells that touch it on the torus counts one living
/// neighbour, and every other cell, the living one too, counts none.
pub proof fn law_lone_cell_neighbours(grid: Grid, r: int, c: int, row: int, column: int)
    requires
        grid.wf(),
        grid.width >= 3,
        grid.height >= 3,
        grid.contains(r, c),
        grid.contains(row, column),
        forall|x: int, y: int|
            grid.contains(x, y) ==> (#[trigger] grid.at(x, y) == Cell::Alive <==> x == r && y == c),
    ensures
        grid.live_neighbours(row, column) == (if touches(grid, row, column, r, c) {
            1nat
        } else {
            0nat
        }),
{
    let w = grid.width as int;
    let h = grid.height as int;
    lemma_wrap(r - 1, h);
    lemma_wrap(r + 1, h);
    lemma_wrap(c - 1, w);
    lemma_wrap(c + 1, w);
    lemma_wrap(row - 1, h);
    lemma_wrap(row, h);
    lemma_wrap(row + 1, h);
    lemma_wrap(column - 1, w);
    lemma_wrap(column, w);
    lemma_wrap(column + 1, w);
}

/// A generation keeps the dimensions, and each cell of the next one follows the
/// rule of the game from its own state and its living neighbours in the old one.
pub proof fn law_step_cellwise(grid: Grid, row: int, column: int)
    requires
        grid.wf(),
        grid.contains(row, column),
    ensures
        grid.step().wf(),
        grid.step().width == grid.width,
        grid.step().height == grid.height,
        grid.step().at(row, column) == grid.at(row, column).successor(
            grid.live_neighbours(row, column),
        ),
{
    lemma_index(row, column, grid.width as int, grid.height as int);
}

/// Any number of generations keeps the dimensions and the number of cells.
pub proof fn law_steps_keep_shape(grid: Grid, n: nat)
    requires
        grid.wf(),
    ensures
        grid.steps(n).wf(),
        grid.steps(n).width == grid.width,
        grid.steps(n).height == grid.height,
    decreases n,
{
    if n > 0 {
        law_steps_keep_shape(grid.step(), (n - 1) as nat);
    }
}

/// Whether `(row, column)` is one of the four cells of the square of two rows
/// and two columns whose first cell is `(top, left)`; the square may reach over
/// the edge of the grid and go on at the other side.
pub open spec fn in_block(grid: Grid, top: int, left: int, row: int, column: int) -> bool {
    &&& row == top || row == (top + 1) % (grid.height as int)
    &&& column == left || column == (left + 1) % (grid.width as int)
}

/// The living cells of the grid are exactly the four of the square at `(top, left)`.
pub open spec fn is_block(grid: Grid, top: int, left: int) -> bool {
    &&& grid.wf()
    &&& grid.contains(top, left)
    &&& forall|row: int, column: int|
        grid.contains(row, column) ==> (#[trigger] grid.at(row, column) == Cell::Alive
            <==> in_block(grid, top, left, row, column))
}

/// A square of four living cells, alone on a grid of at least four rows and four
/// columns, is the same in the next generation.
pub proof fn law_block_is_still(grid: Grid, top: int, left: int)
    requires
        grid.width >= 4,
        grid.height >= 4,
        is_block(grid, top, left),
    ensures
        grid.step() == grid,
{
    let w = grid.width as int;
    let h = grid.height as int;
    lemma_wrap(top + 1, h);
    lemma_wrap(left + 1, w);
    assert forall|i: int| 0 <= i < grid.cells.len() implies grid.step().cells[i] == grid.cells[i] by {
        lemma_place(i, w, h);
        let row = i / w;
        let column = i % w;
        lemma_wrap(row - 1, h);
        lemma_wrap(row, h);
        lemma_wrap(row + 1, h);
        lemma_wrap(column - 1, w);
        lemma_wrap(column, w);
        lemma_wrap(column + 1, w);
        assert(grid.at(row, column) == grid.cells[i]);
    }
    assert(grid.step().cells =~= grid.cells);
}

/// A square of four living cells, alone on a grid of at least four rows and four
/// columns, is the same after any number of generations.
pub proof fn law_block_is_stable(grid: Grid, top: int, left: int, n: nat)
    requires
        grid.width >= 4,
        grid.height >= 4,
        is_block(grid, top, left),
    ensures
        grid.steps(n) == grid,
    decreases n,
{
    if n > 0 {
        law_block_is_still(grid, top, left);
        law_block_is_stable(grid, top, left, (n - 1) as nat);
    }
}

/// The living cells of the grid are exactly three in the row `row`: the one in
/// the column `column` and the two beside it on the torus.
pub open spec fn is_row_of_three(grid: Grid, row: int, column: int) -> bool {
    &&& grid.wf()
    &&& grid.contains(row, column)
    &&& forall|r: int, c: int|
        grid.contains(r, c) ==> (#[trigger] grid.at(r, c) == Cell::Alive
            <==> r == row && beside(c, column, grid.width as int))
}

/// The living cells of the grid are exactly three in the column `column`: the
/// one in the row `row` and the two beside it on the torus.
pub open spec fn is_column_of_three(grid: Grid, row: int, column: int) -> bool {
    &&& grid.wf()
    &&& grid.contains(row, column)
    &&& forall|r: int, c: int|
        grid.contains(r, c) ==> (#[trigger] grid.at(r, c) == Cell::Alive
            <==> c == column && beside(r, row, grid.height as int))
}

/// On a grid of at least four rows and four columns, three living cells in a
/// row, alone on the grid, are three in a column around the same middle cell in
/// the next generation.
pub proof fn law_row_becomes_column(grid: Grid, row: int, column: int)
    requires
        grid.width >= 4,
        grid.height >= 4,
        is_row_of_three(grid, row, column),
    ensures
        is_column_of_three(grid.step(), row, column),
{
    let w = grid.width as int;
    let h = grid.height as int;
    let next = grid.step();
    lemma_wrap(column - 1, w);
    lemma_wrap(column + 1, w);
    lemma_wrap(row - 1, h);
    lemma_wrap(row + 1, h);
    assert forall|r: int, c: int| next.contains(r, c) implies (#[trigger] next.at(r, c)
        == Cell::Alive <==> c == column && beside(r, row, h)) by {
        law_step_cellwise(grid, r, c);
        lemma_wrap(r - 1, h);
        lemma_wrap(r, h);
        lemma_wrap(r + 1, h);
        lemma_wrap(c - 1, w);
        lemma_wrap(c, w);
        lemma_wrap(c + 1, w);
    }
}

/// On a grid of at least four rows and four columns, three living cells in a
/// column, alone on the grid, are three in a row around the same middle cell in
/// the next generation.
pub proof fn law_column_becomes_row(grid: Grid, row: int, column: int)
    requires
        grid.width >= 4,
        grid.height >= 4,
        is_column_of_three(grid, row, column),
    ensures
        is_row_of_three(grid.step(), row, column),
{
    let w = grid.width as int;
    let h = grid.height as int;
    let next = grid.step();
    lemma_wrap(column - 1, w);
    lemma_wrap(column + 1, w);
    lemma_wrap(row - 1, h);
    lemma_wrap(row + 1, h);
    assert forall|r: int, c: int| next.contains(r, c) implies (#[trigger] next.at(r, c)
        == Cell::Alive <==> r == row && beside(c, column, w)) by {
        law_step_cellwise(grid, r, c);
        lemma_wrap(r - 1, h);
        lemma_wrap(r, h);
        lemma_wrap(r + 1, h);
        lemma_wrap(c - 1, w);
        lemma_wrap(c, w);
        lemma_wrap(c + 1, w);
    }
}

/// Two grids of the same dimensions whose cells agree at every pair of a row
/// and a column are the same grid.
pub proof fn law_grids_equal_cellwise(a: Grid, b: Grid)
    requires
        a.wf(),
        b.wf(),
        a.width == b.width,
        a.height == b.height,
        forall|row: int, column: int|
            a.contains(row, column) ==> a.at(row, column) == b.at(row, column),
    ensures
        a == b,
{
    assert forall|i: int| 0 <= i < a.cells.len() implies a.cells[i] == b.cells[i] by {
        lemma_place(i, a.width as int, a.height as int);
        assert(a.at(i / (a.width as int), i % (a.width as int)) == a.cells[i]);
        assert(b.at(i / (a.width as int), i % (a.width as int)) == b.cells[i]);
    }
    assert(a.cells =~= b.cells);
}

/// On a grid of at least four rows and four columns, three living cells in a
/// row, alone on the grid, come back after two generations.
pub proof fn law_blinker_has_period_two(grid: Grid, row: int, column: int)
    requires
        grid.width >= 4,
        grid.height >= 4,
        is_row_of_three(grid, row, column),
    ensures
        is_column_of_three(grid.steps(1), row, column),
        grid.steps(2) == grid,
{
    reveal_with_fuel(Grid::steps, 3);
    law_row_becomes_column(grid, row, column);
    law_column_becomes_row(grid.step(), row, column);
    law_grids_equal_cellwise(grid.step().step(), grid);
}

/// A blank grid has one cell for each pair of a row and a column, and every one
/// of them is dead.
pub proof fn law_blank_is_dead(width: nat, height: nat)
    ensures
        Grid::blank(width, height).wf(),
        Grid::blank(width, height).cells.len() == width * height,
        forall|i: int|
            0 <= i < width * height ==> #[trigger] Grid::blank(width, height).cells[i] == Cell::Dead,
        forall|row: int, column: int|
            Grid::blank(width, height).contains(row, column) ==> #[trigger] Grid::blank(
                width,
                height,
            ).at(row, column) == Cell::Dead,
{
    let blank = Grid::blank(width, height);
    assert forall|row: int, column: int| blank.contains(row, column) implies #[trigger] blank.at(
        row,
        column,
    ) == Cell::Dead by {
        lemma_index(row, column, width as int, height as int);
    }
}

/// A toggle changes the state of the cell it names and of no other cell.
pub proof fn law_toggle_is_local(grid: Grid, row: int, column: int)
    requires
        grid.wf(),
        grid.contains(row, column),
    ensures
        grid.toggle(row, column).wf(),
        grid.toggle(row, column).width == grid.width,
        grid.toggle(row, column).height == grid.height,
        grid.toggle(row, column).at(row, column) == grid.at(row, column).flipped(),
        grid.toggle(row, column).at(row, column) != grid.at(row, column),
        forall|r: int, c: int|
            grid.contains(r, c) && (r != row || c != column) ==> #[trigger] grid.toggle(
                row,
                column,
            ).at(r, c) == grid.at(r, c),
{
    let w = grid.width as int;
    let h = grid.height as int;
    lemma_index(row, column, w, h);
    let toggled = grid.toggle(row, column);
    assert forall|r: int, c: int|
        grid.contains(r, c) && (r != row || c != column) implies #[trigger] toggled.at(r, c)
        == grid.at(r, c) by {
        lemma_index(r, c, w, h);
    }
}

/// Two toggles of the same cell, one after the other, give the grid back.
pub proof fn law_toggle_twice(grid: Grid, row: int, column: int)
    requires
        grid.wf(),
        grid.contains(row, column),
    ensures
        grid.toggle(row, column).toggle(row, column) == grid,
{
    lemma_index(row, column, grid.width as int, grid.height as int);
    assert(grid.toggle(row, column).toggle(row, column).cells =~= grid.cells);
}

/// After a bulk set the cells that the list names are alive, every other cell
/// is as before, and the dimensions are kept.
pub proof fn law_revive_is_exact(grid: Grid, coords: Seq<(u32, u32)>)
    requires
        grid.wf(),
    ensures
        grid.revive(coords).wf(),
        grid.revive(coords).width == grid.width,
        grid.revive(coords).height == grid.height,
        forall|row: int, column: int|
            grid.contains(row, column) && names(coords, row, column) ==> #[trigger] grid.revive(
                coords,
            ).at(row, column) == Cell::Alive,
        forall|row: int, column: int|
            grid.contains(row, column) && !names(coords, row, column) ==> #[trigger] grid.revive(
                coords,
            ).at(row, column) == grid.at(row, column),
{
    let revived = grid.revive(coords);
    assert forall|row: int, column: int| grid.contains(row, column) implies #[trigger] revived.at(
        row,
        column,
    ) == (if names(coords, row, column) {
        Cell::Alive
    } else {
        grid.at(row, column)
    }) by {
        lemma_index(row, column, grid.width as int, grid.height as int);
    }
}

/// A bulk set with the same list a second time changes nothing.
pub proof fn law_revive_is_idempotent(grid: Grid, coords: Seq<(u32, u32)>)
    requires
        grid.wf(),
    ensures
        grid.revive(coords).revive(coords) == grid.revive(coords),
{
    assert(grid.revive(coords).revive(coords).cells =~= grid.revive(coords).cells);
}

/// The two glyphs differ from each other and from the line break.
pub proof fn law_glyphs_differ()
    ensures
        Cell::Alive.glyph() != Cell::Dead.glyph(),
        Cell::Alive.glyph() != '\n',
        Cell::Dead.glyph() != '\n',
{
}

/// The rendering has one line for each row; a line holds the glyph of each cell
/// of its row, in the order of the columns, and then a line break. The glyph of
/// a living cell stands exactly where a living cell is.
pub proof fn law_text_layout(grid: Grid)
    requires
        grid.wf(),
    ensures
        grid.text().len() == grid.height * (grid.width + 1),
        forall|row: int, column: int|
            0 <= row < grid.height && 0 <= column <= grid.width ==> 0 <= #[trigger] grid.text_place(
                row,
                column,
            ) < grid.text().len(),
        forall|row: int|
            0 <= row < grid.height ==> grid.text()[#[trigger] grid.text_place(
                row,
                grid.width as int,
            )] == '\n',
        forall|row: int, column: int|
            grid.contains(row, column) ==> grid.text()[#[trigger] grid.text_place(row, column)]
                == grid.at(row, column).glyph(),
        forall|row: int, column: int|
            grid.contains(row, column) ==> (grid.text()[#[trigger] grid.text_place(row, column)]
                == Cell::Alive.glyph() <==> grid.at(row, column) == Cell::Alive),
{
    let line = grid.width as int + 1;
    let h = grid.height as int;
    assert(grid.height * (grid.width + 1) == line * h) by (nonlinear_arith)
        requires
            line == grid.width + 1,
            h == grid.height,
    ;
    assert forall|row: int, column: int|
        0 <= row < grid.height && 0 <= column <= grid.width implies {
        let k = #[trigger] grid.text_place(row, column);
        0 <= k < grid.text().len() && k / line == row && k % line == column
    } by {
        lemma_index(row, column, line, h);
    }
}

} // verus!
