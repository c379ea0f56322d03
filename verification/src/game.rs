//! The turn-taking rules: two players move in turn, each move is checked
//! before it is made, and the game ends with the first decisive position.

use vstd::prelude::*;
use crate::board::Board;
use crate::grid::{cell, side, verdict, GameResult};
use crate::mark::{other_player, State};
use crate::moves::{parse_move, read_move, trimmed, MoveError};

verus! {

/// Where a game stands between two moves. While a move is made and the
/// position is judged the game is in neither phase; that happens inside one
/// call, and no caller sees the game in between.
#[derive(Copy, Clone, Debug, PartialEq, Eq, Structural)]
pub enum Phase {
    /// The player with this mark is to move.
    AwaitingMove(State),
    /// The game is over, with this result.
    Finished(GameResult),
}

/// What a game is: the cells of its board, the run length that wins, and
/// the phase it is in.
pub struct GameView {
    pub cells: Seq<State>,
    pub criteria: int,
    pub phase: Phase,
}

/// The phase that follows the position `cells`: the game is over where the
/// position is decided, and else `next` is to move.
pub open spec fn phase_for(cells: Seq<State>, criteria: int, next: State) -> Phase {
    match verdict(cells, criteria) {
        GameResult::InProgress => Phase::AwaitingMove(next),
        result => Phase::Finished(result),
    }
}

/// Whether column `x` and row `y`, both counted from 1, name a cell of the
/// grid.
pub open spec fn in_bounds(cells: Seq<State>, x: int, y: int) -> bool {
    1 <= x <= side(cells) && 1 <= y <= side(cells)
}

/// What the move to column `x` and row `y`, both counted from 1, makes of a
/// game in which a player is to move: the game after it, and whether the
/// move was made. A move off the board or onto a taken cell is turned down
/// and changes nothing. A move onto an empty cell puts the mover's mark
/// there; the position is then judged, and the phase says whether the game
/// is over or the other player is to move.
pub open spec fn played(game: GameView, x: int, y: int) -> (GameView, Result<(), MoveError>) {
    if !in_bounds(game.cells, x, y) {
        (game, Err(MoveError::OutOfBounds))
    } else if cell(game.cells, x - 1, y - 1) != State::N {
        (game, Err(MoveError::Occupied { x: (x - 1) as usize, y: (y - 1) as usize }))
    } else {
        let mover = game.phase->AwaitingMove_0;
        let cells = game.cells.update((x - 1) + (y - 1) * side(game.cells), mover);
        (
            GameView {
                cells,
                criteria: game.criteria,
                phase: phase_for(cells, game.criteria, other_player(mover)),
            },
            Ok(()),
        )
    }
}

/// A game in progress or at its end.
#[derive(Debug)]
pub struct Game {
    board: Board,
    criteria: usize,
    turn: State,
    result: GameResult,
}

impl View for Game {
    type V = GameView;

    closed spec fn view(&self) -> GameView {
        GameView {
            cells: self.board@,
            criteria: self.criteria as int,
            phase: match self.result {
                GameResult::InProgress => Phase::AwaitingMove(self.turn),
                result => Phase::Finished(result),
            },
        }
    }
}

impl Game {
    #[verifier::type_invariant]
    spec fn well_formed(&self) -> bool {
        self.turn != State::N
    }

    /// A game on `board` in which `criteria` equal marks in a row win and
    /// `first` moves first. A board that is decided already gives a game
    /// that is over before the first move.
    pub fn new(board: Board, criteria: usize, first: State) -> (game: Game)
        requires
            first != State::N,
        ensures
            game@.cells == board@,
            game@.criteria == criteria,
            game@.phase == phase_for(board@, criteria as int, first),
    {
        let result = board.evaluate(criteria);
        Game { board, criteria, turn: first, result }
    }

    /// The board as it stands.
    pub fn board(&self) -> (board: &Board)
        ensures
            board@ == self@.cells,
    {
        &self.board
    }

    /// The run length that wins.
    pub fn criteria(&self) -> (criteria: usize)
        ensures
            criteria == self@.criteria,
    {
        self.criteria
    }

    /// The phase the game is in. A player who is to move is never the empty
    /// mark, and a game that is over never has the result of one in progress.
    pub fn phase(&self) -> (phase: Phase)
        ensures
            phase == self@.phase,
            phase != Phase::AwaitingMove(State::N),
            phase != Phase::Finished(GameResult::InProgress),
    {
        proof {
            use_type_invariant(self);
        }
        match self.result {
            GameResult::InProgress => Phase::AwaitingMove(self.turn),
            result => Phase::Finished(result),
        }
    }

    /// Makes the move to column `x` and row `y`, both counted from 1, for
    /// the player who is to move. A move off the board, or onto a cell that
    /// is taken, is turned down: the board stays as it is and the same
    /// player is to move.
    pub fn play(&mut self, x: usize, y: usize) -> (outcome: Result<(), MoveError>)
        requires
            old(self)@.phase is AwaitingMove,
        ensures
            (final(self)@, outcome) == played(old(self)@, x as int, y as int),
            !in_bounds(old(self)@.cells, x as int, y as int) ==> outcome == Err::<(), MoveError>(
                MoveError::OutOfBounds,
            ) && final(self)@ == old(self)@,
            in_bounds(old(self)@.cells, x as int, y as int) && cell(
                old(self)@.cells,
                x - 1,
                y - 1,
            ) != State::N ==> outcome == Err::<(), MoveError>(
                MoveError::Occupied { x: (x - 1) as usize, y: (y - 1) as usize },
            ) && final(self)@ == old(self)@,
    {
        proof {
            use_type_invariant(&*self);
        }
        let dim: usize = self.board.dimension();
        if x > dim || x < 1 || y > dim || y < 1 {
            return Err(MoveError::OutOfBounds);
        }
        let column: usize = x - 1;
        let row: usize = y - 1;
        match self.board.get(column, row) {
            State::N => {
                self.board.set(column, row, self.turn);
                self.result = self.board.evaluate(self.criteria);
                self.turn = self.turn.opponent();
                Ok(())
            },
            _ => Err(MoveError::Occupied { x: column, y: row }),
        }
    }

    /// Reads a move from a line as it was typed and makes it. A line that
    /// writes no move changes nothing.
    pub fn submit(&mut self, line: &str) -> (outcome: Result<(), MoveError>)
        requires
            old(self)@.phase is AwaitingMove,
        ensures
            (final(self)@, outcome) == match read_move(trimmed(line@)) {
                Ok((x, y)) => played(old(self)@, x as int, y as int),
                Err(error) => (old(self)@, Err(error)),
            },
    {
        match parse_move(line) {
            Ok((x, y)) => self.play(x, y),
            Err(error) => Err(error),
        }
    }
}

} // verus!
