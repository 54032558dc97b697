//! The turn-taking loop: two players move in turn until the game is over.

use vstd::prelude::*;
use crate::board::Game;
use crate::cell::PlayerType;
use crate::player::Player;

verus! {

/// Whether `after` follows `before` by one turn of `side`: the game was not
/// over, and `side` marked a square that was free.
pub open spec fn turn_of(before: Game, after: Game, side: PlayerType) -> bool {
    &&& !before.over()
    &&& exists|row: int, col: int|
        #[trigger] before.available(row, col) && after@ == before@.insert(
            (row, col),
            side.mark_of(),
        )
}

/// The board on which turn `i` is played, in a game that starts at `start`
/// and whose boards after each turn are `boards`.
pub open spec fn board_before(start: Game, boards: Seq<Game>, i: int) -> Game {
    if i == 0 {
        start
    } else {
        boards[i - 1]
    }
}

/// The side whose turn `i` is when `first` opens the game.
pub open spec fn side_to_move(first: PlayerType, second: PlayerType, i: int) -> PlayerType {
    if i % 2 == 0 {
        first
    } else {
        second
    }
}

/// Plays `game` to its end, `first` and `second` moving in turn, and
/// returns the board after each turn. No turn is played on a board that is
/// over, so a game that starts over returns no boards.
pub fn play_out<A: Player, B: Player>(
    game: &mut Game,
    first: &A,
    second: &B,
) -> (boards: Vec<Game>)
    ensures
        final(game).over(),
        *final(game) == board_before(*old(game), boards@, boards@.len() as int),
        boards@.len() + final(game).open_squares().len() == old(game).open_squares().len(),
        boards@.len() <= 9,
        forall|i: int|
            0 <= i < boards@.len() ==> turn_of(
                board_before(*old(game), boards@, i),
                #[trigger] boards@[i],
                side_to_move(first.side(), second.side(), i),
            ),
{
    let mut boards: Vec<Game> = Vec::new();
    let mut turn: usize = 0;
    proof {
        game.lemma_open_squares();
    }
    while !game.is_over()
        invariant
            turn == boards@.len(),
            *game == board_before(*old(game), boards@, boards@.len() as int),
            turn + game.open_squares().len() == old(game).open_squares().len(),
            old(game).open_squares().len() <= 9,
            forall|i: int|
                0 <= i < boards@.len() ==> turn_of(
                    board_before(*old(game), boards@, i),
                    #[trigger] boards@[i],
                    side_to_move(first.side(), second.side(), i),
                ),
        decreases game.open_squares().len(),
    {
        let ghost before = *game;
        let ghost played = boards@;
        if turn % 2 == 0 {
            first.apply_move(game);
        } else {
            second.apply_move(game);
        }
        boards.push(*game);
        proof {
            assert(turn_of(before, *game, side_to_move(first.side(), second.side(), turn as int)));
            assert forall|i: int| 0 <= i < boards@.len() implies turn_of(
                board_before(*old(game), boards@, i),
                #[trigger] boards@[i],
                side_to_move(first.side(), second.side(), i),
            ) by {
                if i < turn {
                    assert(boards@[i] == played[i]);
                    assert(board_before(*old(game), boards@, i) == board_before(
                        *old(game),
                        played,
                        i,
                    ));
                }
            }
        }
        turn += 1;
    }
    boards
}

} // verus!
