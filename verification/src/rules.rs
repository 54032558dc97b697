//! When a game is won, and when it is over.

use vstd::prelude::*;
use crate::board::{on_board, Game};
use crate::cell::Cell;

verus! {

/// The eight lines that win a game, each as its three squares: the rows from
/// the top, the columns from the left, then the two diagonals.
pub open spec fn win_line(k: int) -> ((int, int), (int, int), (int, int)) {
    if k == 0 {
        ((1, 1), (1, 2), (1, 3))
    } else if k == 1 {
        ((2, 1), (2, 2), (2, 3))
    } else if k == 2 {
        ((3, 1), (3, 2), (3, 3))
    } else if k == 3 {
        ((1, 1), (2, 1), (3, 1))
    } else if k == 4 {
        ((1, 2), (2, 2), (3, 2))
    } else if k == 5 {
        ((1, 3), (2, 3), (3, 3))
    } else if k == 6 {
        ((1, 1), (2, 2), (3, 3))
    } else {
        ((1, 3), (2, 2), (3, 1))
    }
}

/// Where a game stands.
#[derive(Clone, Copy, Debug, PartialEq, Eq, Structural)]
pub enum GameStatus {
    /// No line is complete and a square is still free.
    InProgress,
    /// One side has completed a line.
    Won,
    /// Every square is marked and no line is complete.
    Drawn,
}

impl Game {
    /// Whether the three squares hold one and the same mark.
    pub open spec fn same_mark(&self, a: (int, int), b: (int, int), c: (int, int)) -> bool {
        self@[a].is_mark() && self@[a] == self@[b] && self@[b] == self@[c]
    }

    /// Whether one side holds all of the winning line `k`.
    pub open spec fn line_held(&self, k: int) -> bool {
        self.same_mark(win_line(k).0, win_line(k).1, win_line(k).2)
    }

    /// Whether one side holds a winning line.
    pub open spec fn won(&self) -> bool {
        exists|k: int| 0 <= k < 8 && #[trigger] self.line_held(k)
    }

    /// Whether no square is left to mark.
    pub open spec fn full(&self) -> bool {
        forall|row: int, col: int| on_board(row, col) ==> !#[trigger] self.available(row, col)
    }

    /// Whether the game has ended, by a win or by a full board.
    pub open spec fn over(&self) -> bool {
        self.won() || self.full()
    }

    /// Where the game stands; a full board with a complete line counts as won.
    pub open spec fn standing(&self) -> GameStatus {
        if self.won() {
            GameStatus::Won
        } else if self.full() {
            GameStatus::Drawn
        } else {
            GameStatus::InProgress
        }
    }

    /// Whether three squares of the board hold one and the same mark.
    fn three_alike(&self, a: (usize, usize), b: (usize, usize), c: (usize, usize)) -> (alike: bool)
        requires
            on_board(a.0 as int, a.1 as int),
            on_board(b.0 as int, b.1 as int),
            on_board(c.0 as int, c.1 as int),
        ensures
            alike == self.same_mark(
                (a.0 as int, a.1 as int),
                (b.0 as int, b.1 as int),
                (c.0 as int, c.1 as int),
            ),
    {
        let p = self.at(a.0, a.1);
        let q = self.at(b.0, b.1);
        let r = self.at(c.0, c.1);
        p == q && q == r && p != Cell::Nil
    }

    /// Whether one side has completed a row, a column or a diagonal.
    pub fn is_won(&self) -> (b: bool)
        ensures
            b == self.won(),
    {
        let mut i: usize = 1;
        while i < 4
            invariant
                1 <= i <= 4,
                forall|k: int| 0 <= k < i - 1 ==> !self.line_held(k),
            decreases 4 - i,
        {
            if self.three_alike((i, 1), (i, 2), (i, 3)) {
                assert(self.line_held(i - 1));
                return true;
            }
            i += 1;
        }

        let mut j: usize = 1;
        while j < 4
            invariant
                1 <= j <= 4,
                forall|k: int| 0 <= k < 3 ==> !self.line_held(k),
                forall|k: int| 3 <= k < j + 2 ==> !self.line_held(k),
            decreases 4 - j,
        {
            if self.three_alike((1, j), (2, j), (3, j)) {
                assert(self.line_held(j + 2));
                return true;
            }
            j += 1;
        }

        if self.three_alike((1, 1), (2, 2), (3, 3)) {
            assert(self.line_held(6));
            return true;
        }

        if self.three_alike((1, 3), (2, 2), (3, 1)) {
            assert(self.line_held(7));
            return true;
        }

        false
    }

    /// Whether the game has ended: a line is complete, or no square is free.
    pub fn is_over(&self) -> (b: bool)
        ensures
            b == self.over(),
    {
        if self.is_won() {
            return true;
        }

        let mut i: usize = 1;
        while i < 4
            invariant
                1 <= i <= 4,
                !self.won(),
                forall|row: int, col: int|
                    1 <= row < i && 1 <= col <= 3 ==> !#[trigger] self.available(row, col),
            decreases 4 - i,
        {
            let mut j: usize = 1;
            while j < 4
                invariant
                    1 <= i < 4,
                    1 <= j <= 4,
                    !self.won(),
                    forall|row: int, col: int|
                        1 <= row < i && 1 <= col <= 3 ==> !#[trigger] self.available(row, col),
                    forall|col: int| 1 <= col < j ==> !#[trigger] self.available(i as int, col),
                decreases 4 - j,
            {
                if self.cell_is_avail(i, j) {
                    return false;
                }
                j += 1;
            }
            i += 1;
        }

        true
    }

    /// Where the game stands.
    pub fn status(&self) -> (s: GameStatus)
        ensures
            s == self.standing(),
    {
        if self.is_won() {
            GameStatus::Won
        } else if self.is_over() {
            GameStatus::Drawn
        } else {
            GameStatus::InProgress
        }
    }
}

} // verus!
