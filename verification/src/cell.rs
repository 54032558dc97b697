//! The contents of one square, and the two sides that can mark it.

use vstd::prelude::*;

verus! {

/// What one square of the grid holds: nothing, or the mark of one side.
#[derive(Clone, Copy, Debug, PartialEq, Eq, Structural)]
pub enum Cell {
    Nil,
    X,
    O,
}

/// The two sides of a game.
#[derive(Clone, Copy, Debug, PartialEq, Eq, Structural)]
pub enum PlayerType {
    PX,
    PO,
}

impl Cell {
    /// Whether the square holds a side's mark.
    pub open spec fn is_mark(self) -> bool {
        self != Cell::Nil
    }

    /// The character that shows this square on the console.
    pub open spec fn glyph(self) -> char {
        match self {
            Cell::Nil => ' ',
            Cell::X => 'X',
            Cell::O => 'O',
        }
    }

    /// The one-character text of this square: a blank, `X` or `O`.
    pub fn symbol(self) -> (s: &'static str)
        ensures
            s@ == seq![self.glyph()],
    {
        proof {
            reveal_strlit(" ");
            reveal_strlit("X");
            reveal_strlit("O");
        }
        match self {
            Cell::Nil => " ",
            Cell::X => "X",
            Cell::O => "O",
        }
    }
}

impl PlayerType {
    /// The mark that this side puts on the board.
    pub open spec fn mark_of(self) -> Cell {
        match self {
            PlayerType::PX => Cell::X,
            PlayerType::PO => Cell::O,
        }
    }

    /// The mark that this side puts on the board.
    pub fn mark(self) -> (c: Cell)
        ensures
            c == self.mark_of(),
            c.is_mark(),
    {
        match self {
            PlayerType::PX => Cell::X,
            PlayerType::PO => Cell::O,
        }
    }
}

} // verus!
