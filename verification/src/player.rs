//! Players: what every player can do, and the player that moves at random.

use vstd::prelude::*;
use rand::Rng;
use crate::board::Game;
use crate::cell::PlayerType;
use crate::squares::{as_squares, lemma_mark_closes_square};

verus! {

/// Someone who plays one side of a game.
pub trait Player {
    /// The side that this player plays.
    spec fn side(&self) -> PlayerType;

    /// The side that this player plays.
    fn ptype(&self) -> (p: PlayerType)
        ensures
            p == self.side(),
    ;

    /// Picks a free square of a board that has one.
    fn choose_move(&self, game: &Game) -> (cell: (usize, usize))
        requires
            !game.full(),
        ensures
            game.available(cell.0 as int, cell.1 as int),
    ;

    /// Puts this player's mark at row `x`, column `y`, whatever the square
    /// held; off the board nothing changes.
    fn make_move(&self, game: &mut Game, x: usize, y: usize)
        ensures
            final(game)@ == Game::written(old(game)@, x as int, y as int, self.side().mark_of()),
    {
        game.set(x, y, self.ptype().mark());
    }

    /// Plays one turn: picks a free square and marks it.
    fn apply_move(&self, game: &mut Game)
        requires
            !old(game).full(),
        ensures
            exists|row: int, col: int|
                #[trigger] old(game).available(row, col) && final(game)@ == old(game)@.insert(
                    (row, col),
                    self.side().mark_of(),
                ),
            final(game).open_squares().len() + 1 == old(game).open_squares().len(),
    {
        let ghost before = *game;
        let (x, y) = self.choose_move(game);
        self.make_move(game, x, y);
        proof {
            assert(before.available(x as int, y as int));
            lemma_mark_closes_square(before, *game, x as int, y as int, self.side().mark_of());
        }
    }
}

/// A player that picks each free square with the same chance.
#[derive(Clone, Copy, Debug)]
pub struct RandomPlayer {
    ptype: PlayerType,
}

/// Draws a number below `n`: `rand::Rng::gen_range` over `0..n`, on the
/// generator that `rand::thread_rng` keeps for the calling thread.
///
/// Not proved, but taken from `rand`: `gen_range` panics on an empty range,
/// hence `n > 0`, and what it samples from the half-open range `0..n` lies
/// in it. Nothing is claimed about which number comes, so two calls may
/// differ, nor about the seeding of the generator, which `thread_rng` asks
/// of the operating system and panics without.
#[verifier::external_body]
fn draw_below(n: usize) -> (k: usize)
    requires
        n > 0,
    ensures
        k < n,
{
    rand::thread_rng().gen_range(0..n)
}

impl RandomPlayer {
    /// A random player for the side `ptype`.
    pub fn new(ptype: PlayerType) -> (p: RandomPlayer)
        ensures
            p.side() == ptype,
    {
        RandomPlayer { ptype }
    }

    /// The move that the draw `k` stands for: the free square of `game` with
    /// that index in row-major order.
    pub fn move_for_draw(game: &Game, k: usize) -> (cell: (usize, usize))
        requires
            k < game.open_squares().len(),
        ensures
            (cell.0 as int, cell.1 as int) == game.open_squares()[k as int],
            game.available(cell.0 as int, cell.1 as int),
    {
        let cells = game.available_cells();
        proof {
            game.lemma_open_squares();
            assert(as_squares(cells@)[k as int] == (
                cells@[k as int].0 as int,
                cells@[k as int].1 as int,
            ));
            assert(game.open_squares().contains(game.open_squares()[k as int]));
        }
        cells[k]
    }
}

impl Player for RandomPlayer {
    closed spec fn side(&self) -> PlayerType {
        self.ptype
    }

    fn ptype(&self) -> (p: PlayerType) {
        self.ptype
    }

    /// Draws one of the free squares, each with the same chance.
    fn choose_move(&self, game: &Game) -> (cell: (usize, usize)) {
        let free = game.available_cells().len();
        proof {
            game.lemma_open_squares();
        }
        let k = draw_below(free);
        RandomPlayer::move_for_draw(game, k)
    }
}

} // verus!
