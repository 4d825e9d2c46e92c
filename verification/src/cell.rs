//! A single square of the mine field.

use vstd::prelude::*;

verus! {

/// One square of the field: either free of mines, carrying the number of
/// mined neighbours, or mined. Every square starts hidden and can only ever
/// become visible.
#[derive(Clone, Copy, PartialEq, Eq, Structural, Debug)]
pub enum CellState {
    Empty { count: u8, hidden: bool },
    Bomb { hidden: bool },
}

impl CellState {
    /// Whether the square holds a mine.
    pub open spec fn mined(self) -> bool {
        self is Bomb
    }

    /// Whether the square is still concealed from the player.
    pub open spec fn concealed(self) -> bool {
        match self {
            CellState::Empty { hidden, .. } => hidden,
            CellState::Bomb { hidden } => hidden,
        }
    }

    /// The same square, made visible.
    pub open spec fn revealed(self) -> CellState {
        match self {
            CellState::Empty { count, .. } => CellState::Empty { count, hidden: false },
            CellState::Bomb { .. } => CellState::Bomb { hidden: false },
        }
    }

    /// The character that stands for the square on screen.
    pub open spec fn spec_glyph(self) -> char {
        match self {
            CellState::Empty { count, hidden } => if hidden {
                '*'
            } else if count == 0 {
                '.'
            } else {
                (count + 48) as u8 as char
            },
            CellState::Bomb { hidden } => if hidden {
                '*'
            } else {
                'X'
            },
        }
    }

    /// Makes the square visible and reports whether a mine was uncovered.
    pub fn open(&mut self) -> (bomb: bool)
        ensures
            *final(self) == old(self).revealed(),
            bomb == old(self).mined(),
    {
        match self {
            CellState::Empty { hidden, .. } => {
                *hidden = false;
                false
            },
            CellState::Bomb { hidden } => {
                *hidden = false;
                true
            },
        }
    }

    /// Whether the square is free of mines.
    pub fn is_empty(&self) -> (r: bool)
        ensures
            r == !self.mined(),
    {
        matches!(self, CellState::Empty { .. })
    }

    /// Whether the square holds a mine.
    pub fn is_bomb(&self) -> (r: bool)
        ensures
            r == self.mined(),
    {
        matches!(self, CellState::Bomb { .. })
    }

    /// Whether the square is still concealed.
    pub fn is_hidden(&self) -> (r: bool)
        ensures
            r == self.concealed(),
    {
        match self {
            CellState::Empty { hidden, .. } => *hidden,
            CellState::Bomb { hidden } => *hidden,
        }
    }

    /// The character drawn for the square: `*` while hidden, `.` for a
    /// visible square with no mined neighbour, the digit of the neighbour
    /// count otherwise, and `X` for a visible mine.
    pub fn glyph(&self) -> (c: char)
        requires
            self matches CellState::Empty { count, .. } ==> count <= 8,
        ensures
            c == self.spec_glyph(),
    {
        match self {
            CellState::Empty { count, hidden } => {
                if *hidden {
                    '*'
                } else if *count == 0 {
                    '.'
                } else {
                    (*count + 48u8) as char
                }
            },
            CellState::Bomb { hidden } => {
                if *hidden {
                    '*'
                } else {
                    'X'
                }
            },
        }
    }
}

} // verus!
