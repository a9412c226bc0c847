//! The two per-position values: the state of a cell, and how a cell changed
//! from one generation to the next.

use vstd::prelude::*;

verus! {

/// The state of one position of the grid.
#[derive(Clone, Copy, Debug, PartialEq, Eq, Structural)]
pub enum Cell {
    Dead,
    Alive,
}

/// How one position changed between two consecutive generations.
#[derive(Clone, Copy, Debug, PartialEq, Eq, Structural)]
pub enum CellDelta {
    /// The cell was dead and is alive.
    Birth,
    /// The cell is as it was.
    Unchanged,
    /// The cell was alive and is dead.
    Death,
}

/// Rolls below this bound, out of `ROLL_BOUND`, seed a live cell.
pub const ALIVE_ROLLS: u32 = 60;

/// A roll is drawn from `0..ROLL_BOUND`.
pub const ROLL_BOUND: u32 = 100;

/// The glyph of a dead cell, a white medium square.
pub const DEAD_GLYPH: char = '\u{25FB}';

/// The glyph of a live cell, a black medium square.
pub const ALIVE_GLYPH: char = '\u{25FC}';

impl Cell {
    /// The glyph that stands for the cell in a rendering.
    pub open spec fn glyph(self) -> char {
        match self {
            Cell::Dead => DEAD_GLYPH,
            Cell::Alive => ALIVE_GLYPH,
        }
    }

    /// The other state.
    pub open spec fn flipped(self) -> Cell {
        match self {
            Cell::Dead => Cell::Alive,
            Cell::Alive => Cell::Dead,
        }
    }

    /// What the cell adds to a count of live cells: 1 when alive, else 0.
    pub open spec fn weight(self) -> int {
        match self {
            Cell::Dead => 0,
            Cell::Alive => 1,
        }
    }

    /// The state in the next generation of a cell in state `self` that has
    /// `live_neighbors` live cells around it: a live cell stays alive with two
    /// or three of them, a dead cell comes alive with exactly three, and every
    /// other cell is dead.
    pub open spec fn successor(self, live_neighbors: int) -> Cell {
        if live_neighbors == 3 || (self == Cell::Alive && live_neighbors == 2) {
            Cell::Alive
        } else {
            Cell::Dead
        }
    }

    /// The state that a roll from `0..ROLL_BOUND` seeds.
    pub open spec fn seeded(roll: u32) -> Cell {
        if roll < ALIVE_ROLLS {
            Cell::Alive
        } else {
            Cell::Dead
        }
    }

    /// Flips the cell in place.
    pub fn toggle(&mut self)
        ensures
            *final(self) == old(self).flipped(),
    {
        *self = match *self {
            Cell::Dead => Cell::Alive,
            Cell::Alive => Cell::Dead,
        };
    }

    /// 1 for a live cell, 0 for a dead one.
    pub fn byte(self) -> (b: u8)
        ensures
            b == self.weight(),
    {
        match self {
            Cell::Dead => 0,
            Cell::Alive => 1,
        }
    }

    /// The transition rule for one cell.
    pub fn next(self, live_neighbors: u8) -> (next: Cell)
        ensures
            next == self.successor(live_neighbors as int),
    {
        match (self, live_neighbors) {
            // Underpopulation.
            (Cell::Alive, x) if x < 2 => Cell::Dead,
            // Stasis.
            (Cell::Alive, 2) | (Cell::Alive, 3) => Cell::Alive,
            // Overpopulation.
            (Cell::Alive, x) if x > 3 => Cell::Dead,
            // Reproduction.
            (Cell::Dead, 3) => Cell::Alive,
            // Every other cell stays as it is.
            (otherwise, _) => otherwise,
        }
    }

    /// The cell's glyph, as a text of one character.
    pub fn glyph_text(self) -> (text: &'static str)
        ensures
            text@ == seq![self.glyph()],
    {
        proof {
            reveal_strlit("\u{25FB}");
            reveal_strlit("\u{25FC}");
        }
        match self {
            Cell::Dead => {
                assert("\u{25FB}"@ =~= seq![DEAD_GLYPH]);
                "\u{25FB}"
            },
            Cell::Alive => {
                assert("\u{25FC}"@ =~= seq![ALIVE_GLYPH]);
                "\u{25FC}"
            },
        }
    }

    /// Seeds a cell from a roll: alive for the rolls below `ALIVE_ROLLS`.
    pub fn from_roll(roll: u32) -> (cell: Cell)
        ensures
            cell == Cell::seeded(roll),
    {
        if roll < ALIVE_ROLLS {
            Cell::Alive
        } else {
            Cell::Dead
        }
    }
}

impl CellDelta {
    /// The change of a cell that was `previous` and is `current`.
    pub open spec fn between(current: Cell, previous: Cell) -> CellDelta {
        match (current, previous) {
            (Cell::Dead, Cell::Alive) => CellDelta::Death,
            (Cell::Alive, Cell::Dead) => CellDelta::Birth,
            _ => CellDelta::Unchanged,
        }
    }

    /// Classifies the change of one cell.
    pub fn of(current: Cell, previous: Cell) -> (delta: CellDelta)
        ensures
            delta == CellDelta::between(current, previous),
    {
        match (current, previous) {
            (Cell::Dead, Cell::Alive) => CellDelta::Death,
            (Cell::Alive, Cell::Dead) => CellDelta::Birth,
            (_, _) => CellDelta::Unchanged,
        }
    }
}

} // verus!
