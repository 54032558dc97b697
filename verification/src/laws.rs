//! What holds of every board, stated over the models that the contracts of
//! the board's functions use.

use vstd::prelude::*;
use crate::board::{on_board, Game};
use crate::cell::Cell;
use crate::error::BoardError;
use crate::rules::{win_line, GameStatus};

verus! {

/// Whether `p` is one of the three squares of the winning line `k`.
pub open spec fn on_line(k: int, p: (int, int)) -> bool {
    p == win_line(k).0 || p == win_line(k).1 || p == win_line(k).2
}

/// On a new board every square is free and reads as empty; nobody has won
/// and the game is not over.
pub proof fn lemma_new_board(g: Game, row: int, col: int)
    requires
        g@ == Game::empty_grid(),
        on_board(row, col),
    ensures
        g.available(row, col),
        g.lookup(row, col) == Ok::<Cell, BoardError>(Cell::Nil),
        !g.won(),
        !g.over(),
        g.standing() == GameStatus::InProgress,
{
    assert forall|k: int| 0 <= k < 8 implies !g.line_held(k) by {}
    assert(g.available(row, col));
}

/// Off the board a read fails as out of range, no square counts as free,
/// and a write leaves the grid as it was.
pub proof fn lemma_off_board(g: Game, row: int, col: int, c: Cell)
    requires
        !on_board(row, col),
    ensures
        g.lookup(row, col) == Err::<Cell, BoardError>(BoardError::OutOfRange),
        !g.available(row, col),
        Game::written(g@, row, col, c) == g@,
{
}

/// A read after a write on the board gives what was written, and every
/// other square reads as before.
pub proof fn lemma_write_then_read(before: Game, after: Game, row: int, col: int, c: Cell)
    requires
        on_board(row, col),
        after@ == Game::written(before@, row, col, c),
    ensures
        after.lookup(row, col) == Ok::<Cell, BoardError>(c),
        forall|r: int, k: int|
            (r, k) != (row, col) ==> after.lookup(r, k) == before.lookup(r, k),
{
}

/// A board on which one mark fills a winning line is won.
pub proof fn lemma_filled_line_wins(g: Game, k: int, c: Cell)
    requires
        0 <= k < 8,
        c.is_mark(),
        g@[win_line(k).0] == c,
        g@[win_line(k).1] == c,
        g@[win_line(k).2] == c,
    ensures
        g.won(),
{
    assert(g.line_held(k));
}

/// The write that completes a winning line wins: if the other squares of
/// line `k` hold the mark `c` and `c` is written to the remaining one, the
/// board is won and the game is over.
pub proof fn lemma_completing_write_wins(
    before: Game,
    after: Game,
    k: int,
    row: int,
    col: int,
    c: Cell,
)
    requires
        0 <= k < 8,
        c.is_mark(),
        on_line(k, (row, col)),
        forall|p: (int, int)| on_line(k, p) && p != (row, col) ==> before@[p] == c,
        after@ == Game::written(before@, row, col, c),
    ensures
        after.won(),
        after.over(),
{
    assert(on_line(k, win_line(k).0));
    assert(on_line(k, win_line(k).1));
    assert(on_line(k, win_line(k).2));
    assert(after.line_held(k));
}

/// A board without a filled line is not won.
pub proof fn lemma_no_line_no_win(g: Game)
    requires
        forall|k: int| 0 <= k < 8 ==> !g.line_held(k),
    ensures
        !g.won(),
{
}

/// A won board is over whatever squares are left, and so is a full board
/// that nobody has won, which is a draw.
pub proof fn lemma_over(g: Game)
    ensures
        g.won() ==> g.over() && g.standing() == GameStatus::Won,
        g.full() && !g.won() ==> g.over() && g.standing() == GameStatus::Drawn,
        g.over() <==> g.standing() != GameStatus::InProgress,
{
}

/// On a board with exactly one free square that square is the whole list of
/// free squares, so it is the move of every player, whatever is drawn.
pub proof fn lemma_last_square(g: Game, row: int, col: int)
    requires
        g.available(row, col),
        forall|r: int, k: int| g.available(r, k) ==> (r, k) == (row, col),
    ensures
        g.open_squares() == seq![(row, col)],
{
    g.lemma_open_squares();
    let open = g.open_squares();
    assert(open.contains((row, col)));
    assert forall|i: int| 0 <= i < open.len() implies open[i] == (row, col) by {
        assert(open.contains(open[i]));
    }
    if open.len() > 1 {
        assert(open[0] == open[1]);
    }
    assert(open =~= seq![(row, col)]);
}

} // verus!
