use std::str::FromStr;
use tictactoe::board::Board;
use tictactoe::grid::GameResult;
use tictactoe::mark::State;
use tictactoe::moves::MoveError;
use tictactoe::report::{diagnostic, final_report, prompt};

#[test]
fn prompt_names_the_player() {
    assert_eq!(prompt(State::X), "X, your move: (x  y)  ");
    assert_eq!(prompt(State::O), "O, your move: (x  y)  ");
}

#[test]
fn each_rejection_has_its_own_line() {
    assert_eq!(diagnostic(MoveError::WrongTokenCount), "Invalid input");
    assert_eq!(diagnostic(MoveError::InvalidX), "X is not an valid int");
    assert_eq!(diagnostic(MoveError::InvalidY), "Y is not an valid int");
    assert_eq!(diagnostic(MoveError::OutOfBounds), "X or Y out of bounds");
    assert_eq!(
        diagnostic(MoveError::Occupied { x: 0, y: 2 }),
        "(0, 2) is already occupied! Try again"
    );
    assert_eq!(
        diagnostic(MoveError::Occupied { x: 10, y: 123 }),
        "(10, 123) is already occupied! Try again"
    );
}

#[test]
fn final_report_shows_board_and_winner() {
    let won = Board::from_str("XXX,OO_,___").unwrap();
    assert_eq!(
        final_report(&won, GameResult::Winner(State::X)),
        "XXXOO____\nThe winner is X"
    );
    let lost = Board::from_str("XX_,OOO,X__").unwrap();
    assert_eq!(
        final_report(&lost, GameResult::Winner(State::O)),
        "XX_OOOX__\nThe winner is O"
    );
    let drawn = Board::from_str("XOX,OOX,OXO").unwrap();
    assert_eq!(
        final_report(&drawn, GameResult::Draw),
        "XOXOOXOXO\nThe winner is _"
    );
    assert_eq!(
        final_report(&Board::new(0), GameResult::Draw),
        "\nThe winner is _"
    );
}
