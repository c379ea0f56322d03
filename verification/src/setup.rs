//! How a game is set up from the two optional words a player starts it
//! with: the board, and the run length that wins.

use std::str::FromStr;
use vstd::prelude::*;
use crate::board::Board;
use crate::grid::{blank, is_grid, side};
use crate::mark::State;
use crate::number::{parse_number, parsed_number};
use crate::text::parse_cells;

verus! {

/// The cells of the board a game starts on. A word that is a whole number
/// asks for an empty board of that side length; any other word is read as a
/// board. Without a word, with a side length whose square no `usize` holds,
/// or with a word that spells no square board, the game starts on the empty
/// board of three by three.
pub open spec fn initial_cells(word: Option<&str>) -> Seq<State> {
    match word {
        None => blank(3),
        Some(text) => match parsed_number(text@) {
            Some(size) => if size * size <= usize::MAX {
                blank(size as nat)
            } else {
                blank(3)
            },
            None => if is_grid(parse_cells(text@)) {
                parse_cells(text@)
            } else {
                blank(3)
            },
        },
    }
}

/// The run length that wins: the number that the word writes, or the side
/// length of the board where there is no word or the word is no number.
pub open spec fn initial_run(word: Option<&str>, cells: Seq<State>) -> int {
    match word {
        None => side(cells) as int,
        Some(text) => match parsed_number(text@) {
            Some(criteria) => criteria as int,
            None => side(cells) as int,
        },
    }
}

/// The player who moves first: noughts on an even `seed`, crosses on an odd
/// one.
pub open spec fn first_of(seed: u128) -> State {
    if seed % 2 == 0 {
        State::O
    } else {
        State::X
    }
}

/// The board a game starts on.
pub fn initial_board(word: Option<&str>) -> (board: Board)
    ensures
        board@ == initial_cells(word),
{
    match word {
        None => Board::default(),
        Some(text) => match parse_number(text) {
            Some(size) => match size.checked_mul(size) {
                Some(_) => Board::new(size),
                None => Board::default(),
            },
            None => match Board::from_str(text) {
                Ok(board) => board,
                Err(_) => Board::default(),
            },
        },
    }
}

/// The run length that wins on `board`.
pub fn initial_criteria(word: Option<&str>, board: &Board) -> (criteria: usize)
    ensures
        criteria == initial_run(word, board@),
{
    match word {
        None => board.dimension(),
        Some(text) => match parse_number(text) {
            Some(criteria) => criteria,
            None => board.dimension(),
        },
    }
}

/// The player who moves first, drawn from a number that changes from game
/// to game. The order of the two players is that of `State::players` on an
/// even `seed` and the reverse on an odd one.
pub fn first_player(seed: u128) -> (first: State)
    ensures
        first == first_of(seed),
        first != State::N,
{
    let players = State::players();
    if seed % 2 == 0 {
        players[0]
    } else {
        players[1]
    }
}

} // verus!
