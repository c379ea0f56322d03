//! What holds of every position, whatever its size and whatever run length
//! wins.

use vstd::arithmetic::div_mod::{lemma_div_pos_is_pos, lemma_fundamental_div_mod, lemma_mod_bound,
    lemma_multiply_divide_lt};
use vstd::prelude::*;
use crate::game::{in_bounds, played, GameView};
use crate::grid::{cell, full, has_run, is_grid, lemma_cell_index, lemma_side_is, outcome, run_at, side,
    square, verdict, GameResult, Line};
use crate::mark::{mark_of, symbol_of, State};
use crate::moves::MoveError;
use crate::text::{compact, lemma_compact_push, lemma_parse_empty, lemma_parse_push, parse_cells};

verus! {

/// A run of `len` equal marks of a player on a row, a column or a diagonal
/// wins the game for that player whenever `len` is at least `criteria`. Where
/// both players have such a run, noughts are found first: so a run of
/// crosses wins where noughts have none.
pub proof fn law_run_wins(
    cells: Seq<State>,
    line: Line,
    start: int,
    len: int,
    mark: State,
    criteria: int,
)
    requires
        mark != State::N,
        0 <= criteria <= len,
        run_at(cells, line, start, len, mark),
        mark == State::X ==> !has_run(cells, State::O, criteria),
    ensures
        outcome(cells, criteria) == Some(mark),
        verdict(cells, criteria) == GameResult::Winner(mark),
{
    assert(run_at(cells, line, start, criteria, mark));
}

/// A position in which no player has a run of `criteria` marks or more, and
/// in which a cell is still empty, is in progress.
pub proof fn law_open_without_run(cells: Seq<State>, criteria: int)
    requires
        forall|mark: State, line: Line, start: int, len: int|
            mark != State::N && len >= criteria ==> !#[trigger] run_at(cells, line, start, len, mark),
        !full(cells),
    ensures
        outcome(cells, criteria) is None,
        verdict(cells, criteria) == GameResult::InProgress,
{
}

/// A position in which no player has a run of `criteria` marks or more, and
/// in which no cell is empty, is a draw.
pub proof fn law_full_without_run(cells: Seq<State>, criteria: int)
    requires
        forall|mark: State, line: Line, start: int, len: int|
            mark != State::N && len >= criteria ==> !#[trigger] run_at(cells, line, start, len, mark),
        full(cells),
    ensures
        outcome(cells, criteria) == Some(State::N),
        verdict(cells, criteria) == GameResult::Draw,
{
}

/// Where one mark in a row wins, a position with any mark on it is won.
pub proof fn law_one_in_a_row_wins(cells: Seq<State>, i: int)
    requires
        is_grid(cells),
        0 <= i < cells.len(),
        cells[i] != State::N,
    ensures
        verdict(cells, 1) is Winner,
        verdict(cells, 1) != GameResult::Winner(State::N),
{
    let d: int = side(cells) as int;
    assert(square(d as nat) == cells.len());
    assert(d > 0) by (nonlinear_arith)
        requires
            0 <= d,
            d * d > 0,
    ;
    let x: int = i % d;
    let y: int = i / d;
    lemma_fundamental_div_mod(i, d);
    lemma_mod_bound(i, d);
    lemma_div_pos_is_pos(i, d);
    lemma_multiply_divide_lt(i, d, d);
    assert(x + y * d == i) by (nonlinear_arith)
        requires
            i == d * y + x,
    ;
    assert(run_at(cells, Line::Row(y), x, 1, cells[i]));
}

/// A board without cells is drawn at once, whatever run length wins.
pub proof fn law_empty_board_is_drawn(criteria: int)
    ensures
        outcome(Seq::<State>::empty(), criteria) == Some(State::N),
        verdict(Seq::<State>::empty(), criteria) == GameResult::Draw,
{
    let cells = Seq::<State>::empty();
    lemma_side_is(cells, 0);
}

/// Reading the character a mark is written as gives the mark back.
pub proof fn law_symbol_reads_back(mark: State)
    ensures
        mark_of(symbol_of(mark)) == Some(mark),
{
}

/// Reading the compact form of a grid gives the grid back.
pub proof fn law_compact_reads_back(cells: Seq<State>)
    ensures
        parse_cells(compact(cells)) == cells,
    decreases cells.len(),
{
    if cells.len() == 0 {
        lemma_parse_empty();
        assert(compact(cells) =~= Seq::<char>::empty());
        assert(cells =~= Seq::<State>::empty());
    } else {
        let front = cells.drop_last();
        let mark = cells.last();
        law_compact_reads_back(front);
        assert(cells =~= front.push(mark));
        lemma_compact_push(front, mark);
        lemma_parse_push(compact(front), symbol_of(mark));
    }
}

/// A move to a column or a row that is not on the board is turned down, and
/// changes neither the board nor whose turn it is.
pub proof fn law_move_off_the_board_is_turned_down(game: GameView, x: int, y: int)
    requires
        x < 1 || x > side(game.cells) || y < 1 || y > side(game.cells),
    ensures
        played(game, x, y) == (game, Err::<(), MoveError>(MoveError::OutOfBounds)),
{
}

/// A move onto a cell that holds a mark is turned down, and changes neither
/// the board nor whose turn it is.
pub proof fn law_move_onto_a_mark_is_turned_down(game: GameView, x: int, y: int)
    requires
        in_bounds(game.cells, x, y),
        cell(game.cells, x - 1, y - 1) != State::N,
    ensures
        played(game, x, y).0 == game,
        played(game, x, y).1 is Err,
{
}

/// A move never takes a mark off the board and never puts one mark in the
/// place of another: whatever the move, a cell that holds a mark before it
/// holds the same mark after it, and the grid keeps its size.
pub proof fn law_marks_stay(game: GameView, x: int, y: int, i: int)
    requires
        is_grid(game.cells),
        0 <= i < game.cells.len(),
        game.cells[i] != State::N,
    ensures
        played(game, x, y).0.cells.len() == game.cells.len(),
        played(game, x, y).0.cells[i] == game.cells[i],
{
    let d: int = side(game.cells) as int;
    if 1 <= x <= d && 1 <= y <= d {
        lemma_cell_index(x - 1, y - 1, d);
    }
}

/// A move changes one cell at most, and only from empty to the mark of the
/// player who is to move.
pub proof fn law_move_fills_one_empty_cell(game: GameView, x: int, y: int, i: int)
    requires
        is_grid(game.cells),
        0 <= i < game.cells.len(),
        played(game, x, y).0.cells[i] != game.cells[i],
    ensures
        played(game, x, y).1 is Ok,
        i == (x - 1) + (y - 1) * side(game.cells),
        game.cells[i] == State::N,
        played(game, x, y).0.cells[i] == game.phase->AwaitingMove_0,
{
    let d: int = side(game.cells) as int;
    if 1 <= x <= d && 1 <= y <= d {
        lemma_cell_index(x - 1, y - 1, d);
    }
}

} // verus!
