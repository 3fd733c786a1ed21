use crate::cell::Cell;
use crate::grid::{lemma_index, lemma_place, lemma_wrap, names, Grid};
use vstd::prelude::*;
use vstd::string::StringExecFns;

verus! {

/// Why an operation on a universe was refused.
#[derive(Clone, Copy, Debug, PartialEq, Eq, Structural)]
pub enum GridError {
    /// A row or a column addresses no cell of the grid.
    OutOfRange,
}

/// How the cells of a new universe are set.
pub enum FillPolicy<F> {
    /// Every cell is dead.
    AllDead,
    /// Each cell is what one draw of a random source stands for. The draws come
    /// in the order of the cells, one for each; `true` says that the drawn value
    /// fell below one half.
    Random(Vec<bool>),
    /// A cell is alive exactly when the rule says so of its place in the buffer.
    DeterministicPattern(F),
}

/// A rule for `FillPolicy::DeterministicPattern`: the cells whose place is a
/// multiple of two or of seven are alive.
pub fn default_pattern(index: usize) -> (alive: bool)
    ensures
        alive == (index % 2 == 0 || index % 7 == 0),
{
    index % 2 == 0 || index % 7 == 0
}

/// A buffer of `n` dead cells.
fn dead_cells(n: usize) -> (cells: Vec<Cell>)
    ensures
        cells@ == Seq::new(n as nat, |i: int| Cell::Dead),
{
    let mut cells: Vec<Cell> = Vec::new();
    let mut i: usize = 0;
    while i < n
        invariant
            i <= n,
            cells@.len() == i,
            forall|k: int| 0 <= k < i ==> cells@[k] == Cell::Dead,
        decreases n - i,
    {
        cells.push(Cell::Dead);
        i += 1;
    }
    assert(cells@ =~= Seq::new(n as nat, |i: int| Cell::Dead));
    cells
}

/// A buffer with one cell for each draw, in the order of the draws.
fn drawn_cells(draws: &[bool]) -> (cells: Vec<Cell>)
    ensures
        cells@ == Seq::new(draws@.len(), |i: int| Cell::of_draw(draws@[i])),
{
    let mut cells: Vec<Cell> = Vec::new();
    let mut i: usize = 0;
    while i < draws.len()
        invariant
            i <= draws@.len(),
            cells@.len() == i,
            forall|k: int| 0 <= k < i ==> cells@[k] == Cell::of_draw(draws@[k]),
        decreases draws@.len() - i,
    {
        cells.push(Cell::from_draw(draws[i]));
        i += 1;
    }
    assert(cells@ =~= Seq::new(draws@.len(), |i: int| Cell::of_draw(draws@[i])));
    cells
}

/// A buffer of `n` cells, each alive exactly when `rule` says so of its place.
fn ruled_cells<F: Fn(usize) -> bool>(n: usize, rule: F) -> (cells: Vec<Cell>)
    requires
        forall|i: usize| i < n ==> call_requires(rule, (i,)),
    ensures
        cells@.len() == n,
        forall|i: int|
            0 <= i < n ==> call_ensures(rule, (i as usize,), #[trigger] cells@[i] == Cell::Alive),
{
    let mut cells: Vec<Cell> = Vec::new();
    let mut i: usize = 0;
    while i < n
        invariant
            i <= n,
            cells@.len() == i,
            forall|k: usize| k < n ==> call_requires(rule, (k,)),
            forall|k: int|
                0 <= k < i ==> call_ensures(rule, (k as usize,), #[trigger] cells@[k] == Cell::Alive),
        decreases n - i,
    {
        let alive = rule(i);
        cells.push(if alive { Cell::Alive } else { Cell::Dead });
        i += 1;
    }
    cells
}

/// A grid of cells on a torus, stored row by row in one buffer.
pub struct Universe {
    width: u32,
    height: u32,
    cells: Vec<Cell>,
}

impl View for Universe {
    type V = Grid;

    closed spec fn view(&self) -> Grid {
        Grid { width: self.width as nat, height: self.height as nat, cells: self.cells@ }
    }
}

/// The coordinate before `i` on an axis of length `n` that wraps around.
fn before(i: u32, n: u32) -> (j: u32)
    requires
        i < n,
    ensures
        j < n,
        j == (i - 1) % (n as int),
{
    proof {
        lemma_wrap(i - 1, n as int);
        lemma_wrap(i + n - 1, n as int);
    }
    ((i as u64 + n as u64 - 1) % (n as u64)) as u32
}

/// The coordinate after `i` on an axis of length `n` that wraps around.
fn after(i: u32, n: u32) -> (j: u32)
    requires
        i < n,
    ensures
        j < n,
        j == (i + 1) % (n as int),
{
    proof {
        lemma_wrap(i + 1, n as int);
    }
    ((i as u64 + 1) % (n as u64)) as u32
}

impl Universe {
    /// The buffer holds exactly one cell for each pair of a row and a column.
    #[verifier::type_invariant]
    spec fn inv(&self) -> bool {
        self.cells@.len() == self.width * self.height
    }

    /// A universe of `width` columns and `height` rows, filled as `policy` says.
    ///
    /// Either dimension may be zero, and the universe then has no cell. The cells
    /// must be few enough for one buffer; a policy of draws brings one draw for
    /// each cell, and a rule accepts the place of each cell.
    pub fn new<F: Fn(usize) -> bool>(width: u32, height: u32, policy: FillPolicy<F>) -> (u: Universe)
        requires
            width * height <= usize::MAX,
            policy matches FillPolicy::Random(draws) ==> draws@.len() == width * height,
            policy matches FillPolicy::DeterministicPattern(rule) ==> forall|i: usize|
                i < width * height ==> call_requires(rule, (i,)),
        ensures
            u@.wf(),
            u@.width == width,
            u@.height == height,
            policy is AllDead ==> u@ == Grid::blank(width as nat, height as nat),
            policy matches FillPolicy::Random(draws) ==> u@ == Grid::drawn(
                width as nat,
                height as nat,
                draws@,
            ),
            policy matches FillPolicy::DeterministicPattern(rule) ==> forall|i: int|
                0 <= i < width * height ==> call_ensures(
                    rule,
                    (i as usize,),
                    #[trigger] u@.cells[i] == Cell::Alive,
                ),
    {
        proof {
            assert(0 <= width * height) by (nonlinear_arith);
        }
        let n: usize = width as usize * height as usize;
        let cells = match policy {
            FillPolicy::AllDead => dead_cells(n),
            FillPolicy::Random(draws) => drawn_cells(draws.as_slice()),
            FillPolicy::DeterministicPattern(rule) => ruled_cells(n, rule),
        };
        Universe { width, height, cells }
    }

    /// Gives the universe `width` columns and makes every cell dead: nothing of
    /// the grid before the call is kept. The cells must be few enough for one buffer.
    pub fn set_width(&mut self, width: u32)
        requires
            width * old(self)@.height <= usize::MAX,
        ensures
            final(self)@.wf(),
            final(self)@ == Grid::blank(width as nat, old(self)@.height),
    {
        proof {
            assert(0 <= width * self.height) by (nonlinear_arith);
        }
        let cells = dead_cells(width as usize * self.height as usize);
        *self = Universe { width, height: self.height, cells };
    }

    /// Gives the universe `height` rows and makes every cell dead: nothing of the
    /// grid before the call is kept. The cells must be few enough for one buffer.
    pub fn set_height(&mut self, height: u32)
        requires
            old(self)@.width * height <= usize::MAX,
        ensures
            final(self)@.wf(),
            final(self)@ == Grid::blank(old(self)@.width, height as nat),
    {
        proof {
            assert(0 <= self.width * height) by (nonlinear_arith);
        }
        let cells = dead_cells(self.width as usize * height as usize);
        *self = Universe { width: self.width, height, cells };
    }

    /// Makes every cell dead.
    pub fn reset(&mut self)
        ensures
            final(self)@.wf(),
            final(self)@ == Grid::blank(old(self)@.width, old(self)@.height),
    {
        proof {
            use_type_invariant(&*self);
        }
        self.cells = dead_cells(self.cells.len());
    }

    /// Sets every cell to what one draw of a random source stands for.
    ///
    /// `draws` holds one draw for each cell, in the order of the cells; `true`
    /// says that the drawn value fell below one half, and the cell is then alive.
    pub fn randomize(&mut self, draws: &[bool])
        requires
            draws@.len() == old(self)@.cells.len(),
        ensures
            final(self)@.wf(),
            final(self)@ == Grid::drawn(old(self)@.width, old(self)@.height, draws@),
    {
        proof {
            use_type_invariant(&*self);
        }
        self.cells = drawn_cells(draws);
    }

    /// The place in the buffer of the cell at `(row, column)`.
    fn get_index(&self, row: u32, column: u32) -> (idx: usize)
        requires
            self@.contains(row as int, column as int),
        ensures
            idx == self@.index(row as int, column as int),
            idx < self@.cells.len(),
    {
        proof {
            use_type_invariant(self);
            lemma_index(row as int, column as int, self.width as int, self.height as int);
            assert(self.cells.len() == self.cells@.len());
            assert(0 <= row * self.width) by (nonlinear_arith);
        }
        row as usize * self.width as usize + column as usize
    }

    /// What the cell at `(row, column)` counts for among its neighbours.
    fn weight_at(&self, row: u32, column: u32) -> (w: u8)
        requires
            self@.contains(row as int, column as int),
        ensures
            w == self@.at(row as int, column as int).weight(),
    {
        let idx = self.get_index(row, column);
        self.cells[idx].as_byte()
    }

    /// The number of living cells among the eight that touch `(row, column)`.
    fn neighbours(&self, row: u32, column: u32) -> (count: u8)
        requires
            self@.contains(row as int, column as int),
        ensures
            count == self@.live_neighbours(row as int, column as int),
            count <= 8,
    {
        proof {
            lemma_wrap(row as int, self.height as int);
            lemma_wrap(column as int, self.width as int);
        }
        let north = before(row, self.height);
        let south = after(row, self.height);
        let west = before(column, self.width);
        let east = after(column, self.width);
        self.weight_at(north, west) + self.weight_at(north, column) + self.weight_at(north, east)
            + self.weight_at(row, west) + self.weight_at(row, east) + self.weight_at(south, west)
            + self.weight_at(south, column) + self.weight_at(south, east)
    }

    /// Counts the living cells among the eight that touch `(row, column)` on the
    /// torus, the cell itself left out.
    ///
    /// Fails exactly when `(row, column)` addresses no cell of the grid.
    pub fn live_neighbour_count(&self, row: u32, column: u32) -> (res: Result<u8, GridError>)
        ensures
            self@.wf(),
            res is Ok <==> self@.contains(row as int, column as int),
            res matches Ok(count) ==> count == self@.live_neighbours(row as int, column as int)
                && count <= 8,
            res matches Err(e) ==> e == GridError::OutOfRange,
    {
        proof {
            use_type_invariant(self);
        }
        if row >= self.height || column >= self.width {
            return Err(GridError::OutOfRange);
        }
        Ok(self.neighbours(row, column))
    }

    /// Changes the state of the cell at `(row, column)` and of no other cell.
    ///
    /// Fails, and leaves the grid as it is, exactly when `(row, column)` addresses
    /// no cell of the grid.
    pub fn toggle_cell(&mut self, row: u32, column: u32) -> (res: Result<(), GridError>)
        ensures
            final(self)@.wf(),
            res is Ok <==> old(self)@.contains(row as int, column as int),
            res is Ok ==> final(self)@ == old(self)@.toggle(row as int, column as int),
            res matches Err(e) ==> e == GridError::OutOfRange && final(self)@ == old(self)@,
    {
        proof {
            use_type_invariant(&*self);
        }
        if row >= self.height || column >= self.width {
            return Err(GridError::OutOfRange);
        }
        let idx = self.get_index(row, column);
        let cell = self.cells[idx];
        self.cells[idx] = cell.toggled();
        Ok(())
    }

    /// Whether every pair of `coords`, each a row and a column, addresses a cell
    /// of the grid.
    fn holds_all(&self, coords: &[(u32, u32)]) -> (all: bool)
        ensures
            all == self@.contains_all(coords@),
    {
        let mut k: usize = 0;
        while k < coords.len()
            invariant
                k <= coords@.len(),
                forall|j: int|
                    0 <= j < k ==> self@.contains(coords@[j].0 as int, coords@[j].1 as int),
            decreases coords@.len() - k,
        {
            let (row, column) = coords[k];
            if row >= self.height || column >= self.width {
                return false;
            }
            k += 1;
        }
        true
    }

    /// Makes alive each cell that `coords` names, as a pair of a row and a column,
    /// and changes no other cell. A pair may occur more than once.
    ///
    /// Fails, and leaves the grid as it is, exactly when one of the pairs
    /// addresses no cell of the grid.
    pub fn set_cells(&mut self, coords: &[(u32, u32)]) -> (res: Result<(), GridError>)
        ensures
            final(self)@.wf(),
            res is Ok <==> old(self)@.contains_all(coords@),
            res is Ok ==> final(self)@ == old(self)@.revive(coords@),
            res matches Err(e) ==> e == GridError::OutOfRange && final(self)@ == old(self)@,
    {
        proof {
            use_type_invariant(&*self);
        }
        if !self.holds_all(coords) {
            return Err(GridError::OutOfRange);
        }
        let mut k: usize = 0;
        while k < coords.len()
            invariant
                self@.wf(),
                k <= coords@.len(),
                old(self)@.contains_all(coords@),
                self@.width == old(self)@.width,
                self@.height == old(self)@.height,
                self@.cells.len() == old(self)@.cells.len(),
                forall|i: int|
                    0 <= i < self@.cells.len() ==> #[trigger] self@.cells[i] == (if names(
                        coords@.take(k as int),
                        i / (self@.width as int),
                        i % (self@.width as int),
                    ) {
                        Cell::Alive
                    } else {
                        old(self)@.cells[i]
                    }),
            decreases coords@.len() - k,
        {
            let (row, column) = coords[k];
            let idx = self.get_index(row, column);
            self.cells[idx] = Cell::Alive;
            proof {
                let w = self@.width as int;
                let done = coords@.take(k as int);
                let more = coords@.take(k + 1);
                lemma_index(row as int, column as int, w, self@.height as int);
                assert(more[k as int] == coords@[k as int]);
                assert forall|i: int| 0 <= i < self@.cells.len() implies #[trigger] self@.cells[i]
                    == (if names(more, i / w, i % w) {
                    Cell::Alive
                } else {
                    old(self)@.cells[i]
                }) by {
                    lemma_place(i, w, self@.height as int);
                    if names(done, i / w, i % w) {
                        let j = choose|j: int|
                            0 <= j < done.len() && (#[trigger] done[j]).0 == i / w && done[j].1 == i
                                % w;
                        assert(more[j] == done[j]);
                    }
                    if names(more, i / w, i % w) {
                        let j = choose|j: int|
                            0 <= j < more.len() && (#[trigger] more[j]).0 == i / w && more[j].1 == i
                                % w;
                        if j < k {
                            assert(done[j] == more[j]);
                        }
                    }
                }
            }
            k += 1;
        }
        proof {
            assert(coords@.take(k as int) =~= coords@);
            assert(self@.cells =~= old(self)@.revive(coords@).cells);
        }
        Ok(())
    }

    /// The number of columns.
    pub fn width(&self) -> (w: u32)
        ensures
            self@.wf(),
            w == self@.width,
    {
        proof {
            use_type_invariant(self);
        }
        self.width
    }

    /// The number of rows.
    pub fn height(&self) -> (h: u32)
        ensures
            self@.wf(),
            h == self@.height,
    {
        proof {
            use_type_invariant(self);
        }
        self.height
    }

    /// The cells, row by row: the cell at `(row, column)` has the place
    /// `row * width + column`.
    pub fn cells(&self) -> (cells: &[Cell])
        ensures
            self@.wf(),
            cells@ == self@.cells,
    {
        proof {
            use_type_invariant(self);
        }
        self.cells.as_slice()
    }

    /// The grid as text: one line for each row, from the first to the last. A line
    /// holds one glyph for each cell of its row, `\u{25FC}` for a living cell and
    /// `\u{25FB}` for a dead one, and ends in a line break.
    pub fn render(&self) -> (text: String)
        ensures
            self@.wf(),
            text@ == self@.text(),
    {
        proof {
            use_type_invariant(self);
            reveal_strlit("\u{25FC}");
            reveal_strlit("\u{25FB}");
            reveal_strlit("\n");
        }
        let ghost line = self.width as int + 1;
        let mut text = String::new();
        let mut row: u32 = 0;
        while row < self.height
            invariant
                self@.wf(),
                row <= self.height,
                line == self.width + 1,
                "\u{25FC}"@ == seq!['\u{25FC}'],
                "\u{25FB}"@ == seq!['\u{25FB}'],
                "\n"@ == seq!['\n'],
                text@.len() == row * line,
                forall|k: int| 0 <= k < text@.len() ==> text@[k] == self@.text_at(k),
            decreases self.height - row,
        {
            let mut column: u32 = 0;
            while column < self.width
                invariant
                    self@.wf(),
                    row < self.height,
                    column <= self.width,
                    line == self.width + 1,
                    "\u{25FC}"@ == seq!['\u{25FC}'],
                    "\u{25FB}"@ == seq!['\u{25FB}'],
                    text@.len() == row * line + column,
                    forall|k: int| 0 <= k < text@.len() ==> text@[k] == self@.text_at(k),
                decreases self.width - column,
            {
                let idx = self.get_index(row, column);
                proof {
                    lemma_index(row as int, column as int, line, self.height as int);
                }
                match self.cells[idx] {
                    Cell::Alive => text.append("\u{25FC}"),
                    Cell::Dead => text.append("\u{25FB}"),
                }
                column += 1;
            }
            proof {
                lemma_index(row as int, self.width as int, line, self.height as int);
                assert(row * line + line == (row + 1) * line) by (nonlinear_arith);
            }
            text.append("\n");
            row += 1;
        }
        proof {
            assert(self.height * line == self.height * (self.width + 1));
            assert(text@ =~= self@.text());
        }
        text
    }

    /// Replaces the grid by its next generation.
    ///
    /// Every count of neighbours is taken in the generation before the call: the
    /// new cells are written to a buffer of their own, which then takes the place
    /// of the old one.
    pub fn tick(&mut self)
        ensures
            final(self)@.wf(),
            final(self)@ == old(self)@.step(),
    {
        proof {
            use_type_invariant(&*self);
        }
        let mut next: Vec<Cell> = Vec::new();
        let mut row: u32 = 0;
        while row < self.height
            invariant
                self@.wf(),
                *self == *old(self),
                row <= self.height,
                next@.len() == row * self.width,
                forall|i: int|
                    0 <= i < next@.len() ==> next@[i] == self@.cells[i].successor(
                        self@.live_neighbours(i / (self.width as int), i % (self.width as int)),
                    ),
            decreases self.height - row,
        {
            let mut column: u32 = 0;
            while column < self.width
                invariant
                    self@.wf(),
                    *self == *old(self),
                    row < self.height,
                    column <= self.width,
                    next@.len() == row * self.width + column,
                    forall|i: int|
                        0 <= i < next@.len() ==> next@[i] == self@.cells[i].successor(
                            self@.live_neighbours(i / (self.width as int), i % (self.width as int)),
                        ),
                decreases self.width - column,
            {
                let idx = self.get_index(row, column);
                let cell = self.cells[idx];
                let live = self.neighbours(row, column);
                proof {
                    lemma_index(row as int, column as int, self.width as int, self.height as int);
                }
                next.push(cell.next_state(live));
                column += 1;
            }
            proof {
                assert(row * self.width + self.width == (row + 1) * self.width)
                    by (nonlinear_arith);
            }
            row += 1;
        }
        proof {
            assert(self.height * self.width == self.width * self.height) by (nonlinear_arith);
            assert(next@ =~= self@.step().cells);
        }
        self.cells = next;
    }
}

} // verus!
