//! The lines a game shows to its players.

use vstd::prelude::*;
use vstd::string::StringExecFns;
use crate::board::Board;
use crate::grid::GameResult;
use crate::mark::{symbol_of, State};
use crate::moves::MoveError;
use crate::number::{decimal, write_number};
use crate::text::compact;

verus! {

/// The request for a move, addressed to `player` by symbol.
pub open spec fn prompt_text(player: State) -> Seq<char> {
    seq![symbol_of(player)] + ", your move: (x  y)  "@
}

/// The line that tells why a move was turned down.
pub open spec fn diagnostic_text(error: MoveError) -> Seq<char> {
    match error {
        MoveError::WrongTokenCount => "Invalid input"@,
        MoveError::InvalidX => "X is not an valid int"@,
        MoveError::InvalidY => "Y is not an valid int"@,
        MoveError::OutOfBounds => "X or Y out of bounds"@,
        MoveError::Occupied { x, y } => "("@ + decimal(x as nat) + ", "@ + decimal(y as nat)
            + ") is already occupied! Try again"@,
    }
}

/// The mark a finished game is reported with: the winner's, or the empty
/// mark for a draw.
pub open spec fn mark_of_result(result: GameResult) -> State {
    match result {
        GameResult::Winner(mark) => mark,
        GameResult::Draw => State::N,
        GameResult::InProgress => State::N,
    }
}

/// The last lines of a game: the board in compact form, and below it the
/// symbol of the winner, or of the empty mark for a draw.
pub open spec fn report_text(cells: Seq<State>, result: GameResult) -> Seq<char> {
    compact(cells) + "\nThe winner is "@ + seq![symbol_of(mark_of_result(result))]
}

/// The request for a move, addressed to `player`.
pub fn prompt(player: State) -> (text: String)
    ensures
        text@ == prompt_text(player),
{
    let mut text = String::from_str(player.as_str());
    text.append(", your move: (x  y)  ");
    text
}

/// The line that tells why a move was turned down.
pub fn diagnostic(error: MoveError) -> (text: String)
    ensures
        text@ == diagnostic_text(error),
{
    match error {
        MoveError::WrongTokenCount => String::from_str("Invalid input"),
        MoveError::InvalidX => String::from_str("X is not an valid int"),
        MoveError::InvalidY => String::from_str("Y is not an valid int"),
        MoveError::OutOfBounds => String::from_str("X or Y out of bounds"),
        MoveError::Occupied { x, y } => {
            let mut text = String::from_str("(");
            text.append(write_number(x).as_str());
            text.append(", ");
            text.append(write_number(y).as_str());
            text.append(") is already occupied! Try again");
            text
        },
    }
}

/// The last lines of a game that ended with `result` on `board`.
pub fn final_report(board: &Board, result: GameResult) -> (text: String)
    requires
        result != GameResult::InProgress,
    ensures
        text@ == report_text(board@, result),
{
    let mark = match result {
        GameResult::Winner(mark) => mark,
        _ => State::N,
    };
    let mut text = board.to_string_short();
    text.append("\nThe winner is ");
    text.append(mark.as_str());
    text
}

} // verus!
