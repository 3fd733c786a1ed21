use vstd::prelude::*;

verus! {

/// The state of one square of the grid.
#[derive(Clone, Copy, Debug, PartialEq, Eq, Structural)]
pub enum Cell {
    Dead,
    Alive,
}

impl Cell {
    /// What a cell counts for among its neighbours: 1 when alive, 0 when dead.
    pub open spec fn weight(self) -> nat {
        if self == Cell::Alive {
            1
        } else {
            0
        }
    }

    /// The other state.
    pub open spec fn flipped(self) -> Cell {
        if self == Cell::Alive {
            Cell::Dead
        } else {
            Cell::Alive
        }
    }

    /// The state in the next generation of a cell that has `live` living neighbours.
    ///
    /// A living cell dies of underpopulation below two and of overpopulation above
    /// three; a dead cell is born with exactly three; every other cell stays as it is.
    pub open spec fn successor(self, live: nat) -> Cell {
        if self == Cell::Alive && live < 2 {
            Cell::Dead
        } else if self == Cell::Alive && (live == 2 || live == 3) {
            Cell::Alive
        } else if self == Cell::Alive && live > 3 {
            Cell::Dead
        } else if self == Cell::Dead && live == 3 {
            Cell::Alive
        } else {
            self
        }
    }

    /// The character that stands for the cell in a rendering.
    pub open spec fn glyph(self) -> char {
        if self == Cell::Alive {
            '\u{25FC}'
        } else {
            '\u{25FB}'
        }
    }

    /// The state that a draw stands for: `Alive` when the drawn value fell below
    /// one half, which is what `true` says.
    pub open spec fn of_draw(below_half: bool) -> Cell {
        if below_half {
            Cell::Alive
        } else {
            Cell::Dead
        }
    }

    /// The cell as one byte: 0 for `Dead`, 1 for `Alive`.
    pub fn as_byte(self) -> (b: u8)
        ensures
            b == self.weight(),
    {
        match self {
            Cell::Dead => 0,
            Cell::Alive => 1,
        }
    }

    /// The other state.
    pub fn toggled(self) -> (c: Cell)
        ensures
            c == self.flipped(),
    {
        match self {
            Cell::Dead => Cell::Alive,
            Cell::Alive => Cell::Dead,
        }
    }

    /// Applies the rule of the game to one cell with `live` living neighbours.
    pub fn next_state(self, live: u8) -> (c: Cell)
        ensures
            c == self.successor(live as nat),
    {
        match self {
            Cell::Alive => {
                if live == 2 || live == 3 {
                    Cell::Alive
                } else {
                    Cell::Dead
                }
            },
            Cell::Dead => {
                if live == 3 {
                    Cell::Alive
                } else {
                    Cell::Dead
                }
            },
        }
    }

    /// Turns one draw of a random source into a cell; `below_half` says whether
    /// the drawn value was less than one half.
    pub fn from_draw(below_half: bool) -> (c: Cell)
        ensures
            c == Cell::of_draw(below_half),
    {
        if below_half {
            Cell::Alive
        } else {
            Cell::Dead
        }
    }
}

} // verus!
