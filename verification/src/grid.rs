//! The mathematical model of a board: a sequence of cells that is read as a
//! square grid, the lines on the grid that can hold a winning run, and the
//! outcome of a position.
//!
//! Cells are stored row by row. Column `x` of row `y` is the cell at index
//! `x + y * side`.

use vstd::prelude::*;
use crate::mark::State;

verus! {

/// `d` times `d`.
pub open spec fn square(d: nat) -> nat {
    d * d
}

/// Whether `cells` fills a square grid exactly.
pub open spec fn is_grid(cells: Seq<State>) -> bool {
    exists|d: nat| #[trigger] square(d) == cells.len()
}

/// The side length of the grid that `cells` fills. Meaningful where
/// `is_grid(cells)` holds.
pub open spec fn side(cells: Seq<State>) -> nat {
    choose|d: nat| #[trigger] square(d) == cells.len()
}

/// The cell in column `x` of row `y`.
pub open spec fn cell(cells: Seq<State>, x: int, y: int) -> State {
    cells[x + y * side(cells)]
}

/// A grid of the given side length with every cell empty.
pub open spec fn blank(d: nat) -> Seq<State> {
    Seq::new(square(d), |i: int| State::N)
}

/// Whether no cell is empty.
pub open spec fn full(cells: Seq<State>) -> bool {
    forall|i: int| 0 <= i < cells.len() ==> cells[i] != State::N
}

/// A line on which a run counts: a row, a column, or one of the two
/// diagonals that join opposite corners.
pub enum Line {
    /// The row with the given `y`.
    Row(int),
    /// The column with the given `x`.
    Column(int),
    /// From the cell `(0, 0)` to the cell `(side - 1, side - 1)`.
    Diagonal,
    /// From the cell `(side - 1, 0)` to the cell `(0, side - 1)`.
    AntiDiagonal,
}

/// Whether `line` is a line of the grid. A grid without cells has no lines.
pub open spec fn on_grid(cells: Seq<State>, line: Line) -> bool {
    match line {
        Line::Row(y) => 0 <= y < side(cells),
        Line::Column(x) => 0 <= x < side(cells),
        Line::Diagonal => 0 < side(cells),
        Line::AntiDiagonal => 0 < side(cells),
    }
}

/// The cell at position `t` of `line`, counted from 0 in the direction in
/// which the line is walked.
pub open spec fn at(cells: Seq<State>, line: Line, t: int) -> State {
    match line {
        Line::Row(y) => cell(cells, t, y),
        Line::Column(x) => cell(cells, x, t),
        Line::Diagonal => cell(cells, t, t),
        Line::AntiDiagonal => cell(cells, side(cells) - 1 - t, t),
    }
}

/// Whether the `len` cells of `line` from position `start` on all lie on the
/// grid and all hold `mark`.
pub open spec fn run_at(cells: Seq<State>, line: Line, start: int, len: int, mark: State) -> bool {
    &&& on_grid(cells, line)
    &&& 0 <= start
    &&& 0 <= len
    &&& start + len <= side(cells)
    &&& forall|t: int| start <= t < start + len ==> at(cells, line, t) == mark
}

/// Whether some line of the grid holds `len` cells in a row that all hold
/// `mark`. A run of no cells at all is found on every line, so with `len` 0
/// this holds of every grid but the one without cells; with `len` above the
/// side length it holds of none.
pub open spec fn has_run(cells: Seq<State>, mark: State, len: int) -> bool {
    exists|line: Line, start: int| run_at(cells, line, start, len, mark)
}

/// The outcome of a position under the rule that `criteria` equal marks in a
/// row win: `Some` of a player's mark where that player has such a run
/// (noughts are looked for first), `Some(State::N)` for a draw, where nobody
/// has one and the grid is full, and `None` while the game is still open.
pub open spec fn outcome(cells: Seq<State>, criteria: int) -> Option<State> {
    if has_run(cells, State::O, criteria) {
        Some(State::O)
    } else if has_run(cells, State::X, criteria) {
        Some(State::X)
    } else if full(cells) {
        Some(State::N)
    } else {
        None
    }
}

/// How a position stands.
#[derive(Copy, Clone, Debug, PartialEq, Eq, Structural)]
pub enum GameResult {
    /// The player with this mark has a run that is long enough.
    Winner(State),
    /// Nobody has such a run and no cell is empty.
    Draw,
    /// Nobody has such a run and a cell is still empty.
    InProgress,
}

/// The result that an outcome stands for.
pub open spec fn result_of(outcome: Option<State>) -> GameResult {
    match outcome {
        Some(State::N) => GameResult::Draw,
        Some(mark) => GameResult::Winner(mark),
        None => GameResult::InProgress,
    }
}

/// The result of a position under the rule that `criteria` equal marks in a
/// row win.
pub open spec fn verdict(cells: Seq<State>, criteria: int) -> GameResult {
    result_of(outcome(cells, criteria))
}

/// A grid has one side length only.
pub proof fn lemma_side_is(cells: Seq<State>, d: nat)
    requires
        square(d) == cells.len(),
    ensures
        is_grid(cells),
        side(cells) == d,
{
    let c: nat = side(cells);
    assert(square(c) == cells.len());
    assert(c == d) by (nonlinear_arith)
        requires
            c * c == d * d,
    ;
}

/// Squaring keeps the order of whole numbers.
pub proof fn lemma_square_grows(a: nat, b: nat)
    requires
        a <= b,
    ensures
        square(a) <= square(b),
{
    assert(a * a <= b * b) by (nonlinear_arith)
        requires
            a <= b,
    ;
}

/// Every pair of coordinates below the side length names one of the `d * d`
/// cells.
pub proof fn lemma_cell_index(x: int, y: int, d: int)
    requires
        0 <= x < d,
        0 <= y < d,
    ensures
        0 <= y * d,
        0 <= x + y * d < d * d,
{
    assert(0 <= y * d && y * d + d <= d * d) by (nonlinear_arith)
        requires
            0 <= y < d,
    ;
}

} // verus!
