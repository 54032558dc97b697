//! The three-by-three grid: bounds-checked reads and writes.
//!
//! Rows and columns are numbered from 1. The model of a board is a map from
//! the nine squares `(row, col)` to what each one holds.

use vstd::prelude::*;
use crate::cell::Cell;
use crate::error::BoardError;

verus! {

/// Whether `(row, col)` names one of the nine squares.
pub open spec fn on_board(row: int, col: int) -> bool {
    1 <= row <= 3 && 1 <= col <= 3
}

/// The grid of a game.
#[derive(Clone, Copy, Debug)]
pub struct Game {
    state: [[Cell; 3]; 3],
}

impl View for Game {
    type V = Map<(int, int), Cell>;

    closed spec fn view(&self) -> Map<(int, int), Cell> {
        Map::new(
            |p: (int, int)| on_board(p.0, p.1),
            |p: (int, int)| self.state[p.0 - 1][p.1 - 1],
        )
    }
}

impl Game {
    /// The grid on which no square is marked.
    pub open spec fn empty_grid() -> Map<(int, int), Cell> {
        Map::new(|p: (int, int)| on_board(p.0, p.1), |p: (int, int)| Cell::Nil)
    }

    /// What a read of `(row, col)` gives: the square's contents on the board,
    /// the error off it.
    pub open spec fn lookup(&self, row: int, col: int) -> Result<Cell, BoardError> {
        if on_board(row, col) {
            Ok(self@[(row, col)])
        } else {
            Err(BoardError::OutOfRange)
        }
    }

    /// Whether `(row, col)` is a square of the board that nobody has marked.
    pub open spec fn available(&self, row: int, col: int) -> bool {
        self.lookup(row, col) == Ok::<Cell, BoardError>(Cell::Nil)
    }

    /// The grid after a write of `c` at `(row, col)`: that square replaced on
    /// the board, nothing changed off it.
    pub open spec fn written(
        grid: Map<(int, int), Cell>,
        row: int,
        col: int,
        c: Cell,
    ) -> Map<(int, int), Cell> {
        if on_board(row, col) {
            grid.insert((row, col), c)
        } else {
            grid
        }
    }

    /// The model of every board is defined on the nine squares and nowhere
    /// else.
    pub proof fn lemma_view_domain(&self)
        ensures
            forall|row: int, col: int| self@.dom().contains((row, col)) <==> on_board(row, col),
    {
    }

    /// A board with all nine squares empty.
    pub fn new() -> (g: Game)
        ensures
            g@ == Game::empty_grid(),
    {
        let g = Game {
            state: [
                [Cell::Nil, Cell::Nil, Cell::Nil],
                [Cell::Nil, Cell::Nil, Cell::Nil],
                [Cell::Nil, Cell::Nil, Cell::Nil],
            ],
        };
        assert(g@ =~= Game::empty_grid());
        g
    }

    /// What the square at row `x`, column `y` of the board holds.
    pub(crate) fn at(&self, x: usize, y: usize) -> (c: Cell)
        requires
            on_board(x as int, y as int),
        ensures
            c == self@[(x as int, y as int)],
    {
        self.state[x - 1][y - 1]
    }

    /// Reads the square at row `x`, column `y`.
    pub fn get(&self, x: usize, y: usize) -> (r: Result<Cell, BoardError>)
        ensures
            r == self.lookup(x as int, y as int),
    {
        if !(x >= 1 && x <= 3 && y >= 1 && y <= 3) {
            Err(BoardError::OutOfRange)
        } else {
            Ok(self.at(x, y))
        }
    }

    /// Whether the square at row `x`, column `y` can still be marked. Off the
    /// board the answer is `false`, not an error.
    pub fn cell_is_avail(&self, x: usize, y: usize) -> (b: bool)
        ensures
            b == self.available(x as int, y as int),
    {
        match self.get(x, y) {
            Ok(Cell::Nil) => true,
            _ => false,
        }
    }

    /// Writes `c` to the square at row `x`, column `y`, whatever it held, and
    /// returns `true`; off the board it changes nothing and returns `false`.
    pub fn set(&mut self, x: usize, y: usize, c: Cell) -> (ok: bool)
        ensures
            ok == on_board(x as int, y as int),
            final(self)@ == Game::written(old(self)@, x as int, y as int, c),
            !ok ==> *final(self) == *old(self),
    {
        if !(x >= 1 && x <= 3 && y >= 1 && y <= 3) {
            false
        } else {
            self.state[x - 1][y - 1] = c;
            assert(self@ =~= old(self)@.insert((x as int, y as int), c));
            true
        }
    }
}

} // verus!
