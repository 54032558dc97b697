use tictactoe::board::Game;
use tictactoe::cell::{Cell, PlayerType};
use tictactoe::play::play_out;
use tictactoe::player::{Player, RandomPlayer};
use tictactoe::squares::square_at;

fn filled(rows: [[Cell; 3]; 3]) -> Game {
    let mut g = Game::new();
    for r in 0..3 {
        for c in 0..3 {
            assert!(g.set(r + 1, c + 1, rows[r][c]));
        }
    }
    g
}

fn cells_of(g: &Game) -> Vec<Cell> {
    let mut out = Vec::new();
    for row in 1..=3 {
        for col in 1..=3 {
            out.push(g.get(row, col).unwrap());
        }
    }
    out
}

#[test]
fn square_numbers_run_along_the_rows() {
    let expected = [
        (1, 1),
        (1, 2),
        (1, 3),
        (2, 1),
        (2, 2),
        (2, 3),
        (3, 1),
        (3, 2),
        (3, 3),
    ];
    for n in 0..9 {
        assert_eq!(square_at(n), expected[n]);
    }
    assert_eq!(square_at(9), (4, 1));
    assert_eq!(square_at(usize::MAX), (usize::MAX / 3 + 1, usize::MAX % 3 + 1));
}

#[test]
fn available_cells_of_a_new_board() {
    let g = Game::new();
    let all: Vec<(usize, usize)> = (0..9).map(square_at).collect();
    assert_eq!(g.available_cells(), all);
}

#[test]
fn available_cells_skip_the_marked_squares() {
    let g = filled([
        [Cell::X, Cell::Nil, Cell::O],
        [Cell::Nil, Cell::O, Cell::Nil],
        [Cell::X, Cell::X, Cell::Nil],
    ]);
    assert_eq!(g.available_cells(), vec![(1, 2), (2, 1), (2, 3), (3, 3)]);
}

#[test]
fn available_cells_of_a_full_board() {
    let g = filled([
        [Cell::X, Cell::O, Cell::X],
        [Cell::X, Cell::O, Cell::O],
        [Cell::O, Cell::X, Cell::X],
    ]);
    assert!(g.available_cells().is_empty());
}

#[test]
fn move_for_draw_indexes_the_free_squares() {
    let g = filled([
        [Cell::X, Cell::Nil, Cell::O],
        [Cell::Nil, Cell::O, Cell::Nil],
        [Cell::X, Cell::X, Cell::Nil],
    ]);
    assert_eq!(RandomPlayer::move_for_draw(&g, 0), (1, 2));
    assert_eq!(RandomPlayer::move_for_draw(&g, 1), (2, 1));
    assert_eq!(RandomPlayer::move_for_draw(&g, 2), (2, 3));
    assert_eq!(RandomPlayer::move_for_draw(&g, 3), (3, 3));
    assert_eq!(RandomPlayer::move_for_draw(&Game::new(), 4), (2, 2));
}

#[test]
fn random_player_keeps_its_side() {
    assert_eq!(RandomPlayer::new(PlayerType::PX).ptype(), PlayerType::PX);
    assert_eq!(RandomPlayer::new(PlayerType::PO).ptype(), PlayerType::PO);
}

#[test]
fn choose_move_takes_the_last_free_square() {
    for n in 0..9 {
        let last = square_at(n);
        let mut g = filled([
            [Cell::X, Cell::O, Cell::X],
            [Cell::X, Cell::O, Cell::O],
            [Cell::O, Cell::X, Cell::X],
        ]);
        assert!(g.set(last.0, last.1, Cell::Nil));
        let player = RandomPlayer::new(PlayerType::PO);
        for _ in 0..50 {
            assert_eq!(player.choose_move(&g), last);
        }
    }
}

#[test]
fn choose_move_picks_only_free_squares() {
    let g = filled([
        [Cell::X, Cell::Nil, Cell::O],
        [Cell::Nil, Cell::O, Cell::Nil],
        [Cell::X, Cell::X, Cell::Nil],
    ]);
    let player = RandomPlayer::new(PlayerType::PX);
    let mut seen = Vec::new();
    for _ in 0..400 {
        let cell = player.choose_move(&g);
        assert!(g.cell_is_avail(cell.0, cell.1));
        if !seen.contains(&cell) {
            seen.push(cell);
        }
    }
    seen.sort();
    assert_eq!(seen, vec![(1, 2), (2, 1), (2, 3), (3, 3)]);
}

#[test]
fn choose_move_on_a_new_board_stays_on_the_board() {
    let g = Game::new();
    let player = RandomPlayer::new(PlayerType::PX);
    for _ in 0..200 {
        let (row, col) = player.choose_move(&g);
        assert!((1..=3).contains(&row) && (1..=3).contains(&col));
    }
}

#[test]
fn make_move_puts_the_players_mark() {
    let mut g = Game::new();
    RandomPlayer::new(PlayerType::PX).make_move(&mut g, 2, 3);
    RandomPlayer::new(PlayerType::PO).make_move(&mut g, 3, 1);
    assert_eq!(g.get(2, 3), Ok(Cell::X));
    assert_eq!(g.get(3, 1), Ok(Cell::O));
    assert_eq!(g.available_cells().len(), 7);
}

#[test]
fn make_move_off_the_board_changes_nothing() {
    let mut g = Game::new();
    RandomPlayer::new(PlayerType::PX).make_move(&mut g, 0, 3);
    RandomPlayer::new(PlayerType::PX).make_move(&mut g, 2, 4);
    assert_eq!(g.available_cells().len(), 9);
}

#[test]
fn apply_move_marks_one_free_square() {
    let mut g = filled([
        [Cell::X, Cell::Nil, Cell::O],
        [Cell::Nil, Cell::O, Cell::Nil],
        [Cell::X, Cell::X, Cell::Nil],
    ]);
    let before = cells_of(&g);
    RandomPlayer::new(PlayerType::PO).apply_move(&mut g);
    let after = cells_of(&g);
    let changed: Vec<usize> = (0..9).filter(|&i| before[i] != after[i]).collect();
    assert_eq!(changed.len(), 1);
    assert_eq!(before[changed[0]], Cell::Nil);
    assert_eq!(after[changed[0]], Cell::O);
}

#[test]
fn play_out_runs_a_whole_game() {
    for _ in 0..200 {
        let mut g = Game::new();
        let crosses = RandomPlayer::new(PlayerType::PX);
        let noughts = RandomPlayer::new(PlayerType::PO);
        let boards = play_out(&mut g, &crosses, &noughts);

        assert!(g.is_over());
        assert!(boards.len() >= 5 && boards.len() <= 9);
        assert_eq!(cells_of(&g), cells_of(&boards[boards.len() - 1]));

        let mut previous = Game::new();
        for (turn, board) in boards.iter().enumerate() {
            assert!(!previous.is_over());
            let before = cells_of(&previous);
            let after = cells_of(board);
            let changed: Vec<usize> = (0..9).filter(|&i| before[i] != after[i]).collect();
            assert_eq!(changed.len(), 1);
            assert_eq!(before[changed[0]], Cell::Nil);
            let mark = if turn % 2 == 0 { Cell::X } else { Cell::O };
            assert_eq!(after[changed[0]], mark);
            previous = *board;
        }
    }
}

#[test]
fn play_out_makes_no_move_on_a_won_board() {
    let mut g = Game::new();
    let moves = [
        (1, 1, Cell::X),
        (2, 2, Cell::O),
        (1, 2, Cell::X),
        (2, 1, Cell::O),
        (1, 3, Cell::X),
    ];
    for &(row, col, mark) in moves.iter() {
        assert!(g.set(row, col, mark));
    }
    assert!(g.is_won());
    let before = g.render();
    let boards = play_out(
        &mut g,
        &RandomPlayer::new(PlayerType::PO),
        &RandomPlayer::new(PlayerType::PX),
    );
    assert!(boards.is_empty());
    assert_eq!(g.render(), before);
}

#[test]
fn play_out_makes_no_move_on_a_drawn_board() {
    let mut g = filled([
        [Cell::X, Cell::O, Cell::X],
        [Cell::X, Cell::O, Cell::O],
        [Cell::O, Cell::X, Cell::X],
    ]);
    let boards = play_out(
        &mut g,
        &RandomPlayer::new(PlayerType::PX),
        &RandomPlayer::new(PlayerType::PO),
    );
    assert!(boards.is_empty());
    assert_eq!(g.render(), "|X O X|\n|X O O|\n|O X X|");
}

#[test]
fn play_out_finishes_a_game_with_one_square_left() {
    let mut g = filled([
        [Cell::X, Cell::O, Cell::X],
        [Cell::X, Cell::O, Cell::O],
        [Cell::O, Cell::X, Cell::Nil],
    ]);
    let boards = play_out(
        &mut g,
        &RandomPlayer::new(PlayerType::PX),
        &RandomPlayer::new(PlayerType::PO),
    );
    assert_eq!(boards.len(), 1);
    assert_eq!(g.render(), "|X O X|\n|X O O|\n|O X X|");
    assert_eq!(boards[0].render(), "|X O X|\n|X O O|\n|O X X|");
}

/// A player that follows a fixed list of moves, one per turn of its own.
struct Scripted {
    side: PlayerType,
    moves: Vec<(usize, usize)>,
}

impl Player for Scripted {
    fn side(&self) -> PlayerType {
        self.side
    }

    fn ptype(&self) -> PlayerType {
        self.side
    }

    fn choose_move(&self, game: &Game) -> (usize, usize) {
        let played = 9 - game.available_cells().len();
        self.moves[played / 2]
    }
}

#[test]
fn play_out_stops_when_the_top_row_is_complete() {
    let crosses = Scripted { side: PlayerType::PX, moves: vec![(1, 1), (1, 2), (1, 3)] };
    let noughts = Scripted { side: PlayerType::PO, moves: vec![(2, 2), (2, 1)] };
    let mut g = Game::new();
    let boards = play_out(&mut g, &crosses, &noughts);

    assert_eq!(boards.len(), 5);
    for board in boards[..4].iter() {
        assert!(!board.is_won());
        assert!(!board.is_over());
    }
    assert!(boards[4].is_won());
    assert!(g.is_won());
    assert!(g.is_over());
    assert_eq!(g.render(), "|X X X|\n|O O  |\n|     |");
    assert_eq!(g.available_cells(), vec![(2, 3), (3, 1), (3, 2), (3, 3)]);
}
