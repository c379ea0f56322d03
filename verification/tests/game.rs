use std::str::FromStr;
use tictactoe::board::Board;
use tictactoe::game::{Game, Phase};
use tictactoe::grid::GameResult;
use tictactoe::mark::State;
use tictactoe::moves::MoveError;

fn classic(first: State) -> Game {
    Game::new(Board::default(), 3, first)
}

#[test]
fn game_starts_with_the_first_player() {
    let game = classic(State::O);
    assert_eq!(game.phase(), Phase::AwaitingMove(State::O));
    assert_eq!(game.criteria(), 3);
    assert_eq!(game.board(), &Board::new(3));
    assert_eq!(classic(State::X).phase(), Phase::AwaitingMove(State::X));
}

#[test]
fn decided_board_is_over_before_the_first_move() {
    let won = Game::new(Board::from_str("XXX,OO_,___").unwrap(), 3, State::O);
    assert_eq!(won.phase(), Phase::Finished(GameResult::Winner(State::X)));
    let drawn = Game::new(Board::from_str("XOX,OOX,OXO").unwrap(), 3, State::X);
    assert_eq!(drawn.phase(), Phase::Finished(GameResult::Draw));
    let nothing = Game::new(Board::new(0), 0, State::X);
    assert_eq!(nothing.phase(), Phase::Finished(GameResult::Draw));
    let short = Game::new(Board::from_str("XOX,OOX,OX_").unwrap(), 2, State::X);
    assert_eq!(short.phase(), Phase::Finished(GameResult::Winner(State::O)));
}

#[test]
fn accepted_move_marks_the_cell_and_passes_the_turn() {
    let mut game = classic(State::X);
    assert_eq!(game.play(2, 1), Ok(()));
    assert_eq!(game.board().to_string_short(), "_X_______");
    assert_eq!(game.board().get(1, 0), State::X);
    assert_eq!(game.phase(), Phase::AwaitingMove(State::O));
    assert_eq!(game.play(1, 3), Ok(()));
    assert_eq!(game.board().to_string_short(), "_X____O__");
    assert_eq!(game.board().get(0, 2), State::O);
    assert_eq!(game.phase(), Phase::AwaitingMove(State::X));
    assert_eq!(game.criteria(), 3);
}

#[test]
fn move_off_the_board_is_turned_down() {
    let mut game = classic(State::O);
    game.play(2, 2).unwrap();
    let before = game.board().clone();
    for (x, y) in [
        (0, 1),
        (1, 0),
        (0, 0),
        (4, 1),
        (1, 4),
        (4, 4),
        (0, 4),
        (usize::MAX, 1),
        (1, usize::MAX),
        (usize::MAX, usize::MAX),
    ] {
        assert_eq!(game.play(x, y), Err(MoveError::OutOfBounds));
        assert_eq!(game.board(), &before);
        assert_eq!(game.phase(), Phase::AwaitingMove(State::X));
    }
    assert_eq!(game.play(3, 3), Ok(()));
    assert_eq!(game.play(1, 1), Ok(()));
}

#[test]
fn move_onto_a_taken_cell_is_turned_down() {
    let mut game = classic(State::X);
    game.play(2, 3).unwrap();
    let before = game.board().clone();
    assert_eq!(game.phase(), Phase::AwaitingMove(State::O));
    assert_eq!(game.play(2, 3), Err(MoveError::Occupied { x: 1, y: 2 }));
    assert_eq!(game.board(), &before);
    assert_eq!(game.phase(), Phase::AwaitingMove(State::O));
    assert_eq!(game.play(2, 3), Err(MoveError::Occupied { x: 1, y: 2 }));
    assert_eq!(game.phase(), Phase::AwaitingMove(State::O));
    game.play(1, 1).unwrap();
    assert_eq!(game.phase(), Phase::AwaitingMove(State::X));
    assert_eq!(game.play(1, 1), Err(MoveError::Occupied { x: 0, y: 0 }));
    assert_eq!(game.play(2, 3), Err(MoveError::Occupied { x: 1, y: 2 }));
    assert_eq!(game.board().to_string_short(), "O______X_");
    assert_eq!(game.phase(), Phase::AwaitingMove(State::X));
}

#[test]
fn game_ends_with_the_winning_move() {
    let mut game = classic(State::X);
    for (x, y) in [(1, 1), (1, 2), (2, 1), (2, 2)] {
        assert_eq!(game.play(x, y), Ok(()));
        assert!(matches!(game.phase(), Phase::AwaitingMove(_)));
    }
    assert_eq!(game.phase(), Phase::AwaitingMove(State::X));
    assert_eq!(game.play(3, 1), Ok(()));
    assert_eq!(game.phase(), Phase::Finished(GameResult::Winner(State::X)));
    assert_eq!(game.board().to_string_short(), "XXXOO____");
}

#[test]
fn game_ends_in_a_draw_on_the_last_cell() {
    let mut game = classic(State::X);
    let moves = [
        (1, 1),
        (2, 1),
        (3, 1),
        (2, 2),
        (1, 2),
        (1, 3),
        (3, 2),
        (3, 3),
    ];
    for (x, y) in moves {
        assert_eq!(game.play(x, y), Ok(()));
        assert!(matches!(game.phase(), Phase::AwaitingMove(_)));
    }
    assert_eq!(game.play(2, 3), Ok(()));
    assert_eq!(game.board().to_string_short(), "XOXXOXOXO");
    assert_eq!(game.phase(), Phase::Finished(GameResult::Draw));
}

#[test]
fn shorter_run_ends_a_game_on_a_larger_board() {
    let mut game = Game::new(Board::new(5), 3, State::O);
    for (x, y) in [(5, 5), (1, 1), (4, 4), (1, 2)] {
        assert_eq!(game.play(x, y), Ok(()));
    }
    assert_eq!(game.phase(), Phase::AwaitingMove(State::O));
    assert_eq!(game.play(3, 3), Ok(()));
    assert_eq!(game.phase(), Phase::Finished(GameResult::Winner(State::O)));
}

#[test]
fn single_cell_game_is_won_with_the_only_move() {
    let mut game = Game::new(Board::new(1), 1, State::X);
    assert_eq!(game.phase(), Phase::AwaitingMove(State::X));
    assert_eq!(game.play(2, 1), Err(MoveError::OutOfBounds));
    assert_eq!(game.play(1, 1), Ok(()));
    assert_eq!(game.phase(), Phase::Finished(GameResult::Winner(State::X)));
}

#[test]
fn typed_line_is_read_and_played() {
    let mut game = classic(State::O);
    assert_eq!(game.submit("2 2\n"), Ok(()));
    assert_eq!(game.board().to_string_short(), "____O____");
    assert_eq!(game.phase(), Phase::AwaitingMove(State::X));
    assert_eq!(game.submit("  1 3  \r\n"), Ok(()));
    assert_eq!(game.board().to_string_short(), "____O_X__");
    assert_eq!(game.phase(), Phase::AwaitingMove(State::O));
}

#[test]
fn typed_line_that_is_no_move_changes_nothing() {
    let mut game = classic(State::O);
    game.submit("2 2\n").unwrap();
    let before = game.board().clone();
    let lines = [
        ("\n", MoveError::WrongTokenCount),
        ("1\n", MoveError::WrongTokenCount),
        ("1 2 3\n", MoveError::WrongTokenCount),
        ("1  2\n", MoveError::WrongTokenCount),
        ("a 1\n", MoveError::InvalidX),
        ("a b\n", MoveError::InvalidX),
        ("1 b\n", MoveError::InvalidY),
        ("-1 1\n", MoveError::InvalidX),
        ("0 1\n", MoveError::OutOfBounds),
        ("1 0\n", MoveError::OutOfBounds),
        ("4 1\n", MoveError::OutOfBounds),
        ("1 4\n", MoveError::OutOfBounds),
        ("2 2\n", MoveError::Occupied { x: 1, y: 1 }),
    ];
    for (line, error) in lines {
        assert_eq!(game.submit(line), Err(error), "{:?}", line);
        assert_eq!(game.board(), &before);
        assert_eq!(game.phase(), Phase::AwaitingMove(State::X));
    }
    assert_eq!(game.submit("1 1\n"), Ok(()));
    assert_eq!(game.phase(), Phase::AwaitingMove(State::O));
}

#[test]
fn whole_game_from_typed_lines() {
    let mut game = classic(State::O);
    let lines = ["1 1\n", "2 1\n", "2 2\n", "3 1\n", "3 3\n"];
    for line in lines {
        assert!(matches!(game.phase(), Phase::AwaitingMove(_)));
        assert_eq!(game.submit(line), Ok(()));
    }
    assert_eq!(game.board().to_string_short(), "OXX_O___O");
    assert_eq!(game.phase(), Phase::Finished(GameResult::Winner(State::O)));
}
