//! The board: a square grid of marks, with coordinate access and the search
//! for a winner.

use std::str::FromStr;
use vstd::prelude::*;
use vstd::std_specs::cmp::PartialEqSpecImpl;
use vstd::string::StringExecFns;
use crate::grid::{blank, cell, full, has_run, is_grid, lemma_cell_index, lemma_side_is,
    lemma_square_grows, outcome, run_at, side, square, verdict, GameResult, Line};
use crate::laws::law_compact_reads_back;
use crate::mark::{symbol_of, State};
use crate::scan::{lemma_no_run, lemma_scan_end, lemma_scan_start, lemma_scan_step, scanned};
use crate::text::{cell_text, compact, lemma_compact_push, lemma_parse_empty, lemma_parse_push,
    lemma_row_text_step, lemma_rows_text_step, parse_cells, rendered, row_text, rows_text};

verus! {

/// Why a text is no board.
#[derive(Copy, Clone, Debug, PartialEq, Eq, Structural)]
pub enum ParseError {
    /// The number of cells in the text is not a square number.
    NotSquare,
}

/// The largest whole number whose square is at most `n`.
pub fn integer_sqrt(n: usize) -> (root: usize)
    ensures
        square(root as nat) <= n < square((root + 1) as nat),
{
    let mut root: usize = 0;
    loop
        invariant
            root <= n,
            square(root as nat) <= n,
        decreases n - root,
    {
        if root == n {
            assert(root + 1 <= (root + 1) * (root + 1)) by (nonlinear_arith);
            return root;
        }
        let next: usize = root + 1;
        match next.checked_mul(next) {
            Some(sq) => {
                if sq > n {
                    return root;
                }
                root = next;
            },
            None => {
                return root;
            },
        }
    }
}

/// A square grid of marks, stored row by row.
///
/// The view of a board is the sequence of its cells; the side length is
/// `side` of that sequence.
#[derive(Debug)]
pub struct Board {
    cells: Vec<State>,
    dim: usize,
}

impl View for Board {
    type V = Seq<State>;

    closed spec fn view(&self) -> Seq<State> {
        self.cells@
    }
}

impl Board {
    #[verifier::type_invariant]
    spec fn well_formed(&self) -> bool {
        square(self.dim as nat) == self.cells@.len()
    }

    /// A board of `size` by `size` empty cells.
    pub fn new(size: usize) -> (board: Board)
        requires
            size * size <= usize::MAX,
        ensures
            board@ == blank(size as nat),
            side(board@) == size,
    {
        let count: usize = size * size;
        let mut cells: Vec<State> = Vec::new();
        let mut i: usize = 0;
        while i < count
            invariant
                i <= count,
                cells@.len() == i,
                forall|k: int| 0 <= k < i ==> cells@[k] == State::N,
            decreases count - i,
        {
            cells.push(State::N);
            i += 1;
        }
        proof {
            assert(cells@ =~= blank(size as nat));
            lemma_side_is(cells@, size as nat);
        }
        Board { cells, dim: size }
    }

    /// The side length of the board.
    pub fn dimension(&self) -> (d: usize)
        ensures
            d == side(self@),
            square(d as nat) == self@.len(),
            is_grid(self@),
    {
        proof {
            use_type_invariant(self);
            lemma_side_is(self.cells@, self.dim as nat);
        }
        self.dim
    }

    /// The mark in column `x` of row `y`, both counted from 0.
    pub fn get(&self, x: usize, y: usize) -> (mark: State)
        requires
            x < side(self@),
            y < side(self@),
        ensures
            mark == cell(self@, x as int, y as int),
    {
        proof {
            use_type_invariant(self);
            lemma_side_is(self.cells@, self.dim as nat);
            lemma_cell_index(x as int, y as int, self.dim as int);
            assert(self.cells@.len() == self.cells.len());
        }
        self.cells[x + y * self.dim]
    }

    /// Puts `mark` into column `x` of row `y`, both counted from 0, and
    /// leaves every other cell as it was.
    pub fn set(&mut self, x: usize, y: usize, mark: State)
        requires
            x < side(old(self)@),
            y < side(old(self)@),
        ensures
            final(self)@ == old(self)@.update(x + y * side(old(self)@), mark),
            side(final(self)@) == side(old(self)@),
        no_unwind
    {
        proof {
            use_type_invariant(&*self);
            lemma_side_is(self.cells@, self.dim as nat);
            lemma_cell_index(x as int, y as int, self.dim as int);
            assert(self.cells@.len() == self.cells.len());
        }
        let index: usize = x + y * self.dim;
        self.cells[index] = mark;
        proof {
            lemma_side_is(self.cells@, self.dim as nat);
        }
    }

    /// The compact form of the board: the symbol of every cell, row by row,
    /// with nothing in between. Read as a board, it gives this board back.
    pub fn to_string_short(&self) -> (text: String)
        ensures
            text@ == compact(self@),
            parse_cells(text@) == self@,
    {
        let dim: usize = self.dimension();
        let ghost cells = self@;
        let mut text = String::new();
        proof {
            law_compact_reads_back(cells);
        }
        assert(cells.take(0) =~= Seq::<State>::empty());
        assert(compact(Seq::<State>::empty()) =~= Seq::<char>::empty());
        let mut y: usize = 0;
        while y < dim
            invariant
                cells == self@,
                dim == side(cells),
                square(dim as nat) == cells.len(),
                y <= dim,
                text@ == compact(cells.take(y * dim)),
            decreases dim - y,
        {
            let mut x: usize = 0;
            while x < dim
                invariant
                    cells == self@,
                    dim == side(cells),
                    square(dim as nat) == cells.len(),
                    y < dim,
                    x <= dim,
                    text@ == compact(cells.take(x + y * dim)),
                decreases dim - x,
            {
                let mark = self.get(x, y);
                text.append(mark.as_str());
                proof {
                    lemma_cell_index(x as int, y as int, dim as int);
                    let seen = cells.take(x + y * dim);
                    lemma_compact_push(seen, mark);
                    assert(cells.take(x + 1 + y * dim) =~= seen.push(mark));
                    assert(compact(seen) + seq![symbol_of(mark)] =~= compact(seen).push(
                        symbol_of(mark),
                    ));
                }
                x += 1;
            }
            proof {
                assert(dim + y * dim == (y + 1) * dim) by (nonlinear_arith);
            }
            y += 1;
        }
        assert(cells.take(dim * dim) =~= cells);
        text
    }

    /// The display of the board: one line per row, each cell as its symbol
    /// in square brackets, each row closed by a line feed.
    pub fn render(&self) -> (text: String)
        ensures
            text@ == rendered(self@),
    {
        let dim: usize = self.dimension();
        let ghost cells = self@;
        let mut text = String::new();
        proof {
            lemma_rows_text_step(cells, 0);
            reveal_strlit("[");
            reveal_strlit("]");
            reveal_strlit("\n");
        }
        let mut y: usize = 0;
        while y < dim
            invariant
                cells == self@,
                dim == side(cells),
                y <= dim,
                text@ == rows_text(cells, y as nat),
                "["@ == seq!['['],
                "]"@ == seq![']'],
                "\n"@ == seq!['\n'],
            decreases dim - y,
        {
            let mut x: usize = 0;
            proof {
                lemma_row_text_step(cells, y as int, 0);
            }
            while x < dim
                invariant
                    cells == self@,
                    dim == side(cells),
                    y < dim,
                    x <= dim,
                    text@ == rows_text(cells, y as nat) + row_text(cells, y as int, x as nat),
                    "["@ == seq!['['],
                    "]"@ == seq![']'],
                decreases dim - x,
            {
                let mark = self.get(x, y);
                text.append("[");
                text.append(mark.as_str());
                text.append("]");
                proof {
                    lemma_row_text_step(cells, y as int, x as nat);
                    assert(seq!['['] + seq![symbol_of(mark)] + seq![']'] =~= cell_text(mark));
                }
                x += 1;
            }
            text.append("\n");
            proof {
                lemma_rows_text_step(cells, y as nat);
            }
            y += 1;
        }
        text
    }

    /// Whether no cell is empty.
    pub fn is_full(&self) -> (yes: bool)
        ensures
            yes == full(self@),
    {
        let mut i: usize = 0;
        while i < self.cells.len()
            invariant
                i <= self.cells@.len(),
                forall|k: int| 0 <= k < i ==> self.cells@[k] != State::N,
            decreases self.cells@.len() - i,
        {
            if self.cells[i] == State::N {
                return false;
            }
            i += 1;
        }
        true
    }

    /// The running count of `mark` after the cell in column `x` of row `y`:
    /// one more than `count` where the cell holds `mark`, zero where it does
    /// not.
    fn counted(&self, x: usize, y: usize, mark: State, count: usize) -> (next: usize)
        requires
            x < side(self@),
            y < side(self@),
            count < usize::MAX,
        ensures
            next == if cell(self@, x as int, y as int) == mark {
                count + 1
            } else {
                0
            },
    {
        if self.get(x, y) == mark {
            count + 1
        } else {
            0
        }
    }

    /// Whether some row, column or diagonal holds `criteria` cells in a row
    /// that all hold `mark`.
    pub fn has_run_of(&self, mark: State, criteria: usize) -> (found: bool)
        ensures
            found == has_run(self@, mark, criteria as int),
    {
        let dim: usize = self.dimension();
        let ghost cells = self@;
        let ghost k = criteria as int;
        let mut falling: usize = 0;
        let mut rising: usize = 0;
        let mut i: usize = 0;
        proof {
            lemma_scan_start(cells, Line::Diagonal, mark, k);
            lemma_scan_start(cells, Line::AntiDiagonal, mark, k);
        }
        while i < dim
            invariant
                cells == self@,
                k == criteria,
                dim == side(cells),
                i <= dim,
                forall|x: int, start: int|
                    0 <= x < i ==> !#[trigger] run_at(cells, Line::Column(x), start, k, mark),
                forall|y: int, start: int|
                    0 <= y < i ==> !#[trigger] run_at(cells, Line::Row(y), start, k, mark),
                scanned(cells, Line::Diagonal, mark, k, i as int, falling as int),
                scanned(cells, Line::AntiDiagonal, mark, k, i as int, rising as int),
            decreases dim - i,
        {
            let mut column: usize = 0;
            let mut row: usize = 0;
            let mut j: usize = 0;
            proof {
                lemma_scan_start(cells, Line::Column(i as int), mark, k);
                lemma_scan_start(cells, Line::Row(i as int), mark, k);
            }
            while j < dim
                invariant
                    cells == self@,
                    k == criteria,
                    dim == side(cells),
                    i < dim,
                    j <= dim,
                    scanned(cells, Line::Column(i as int), mark, k, j as int, column as int),
                    scanned(cells, Line::Row(i as int), mark, k, j as int, row as int),
                decreases dim - j,
            {
                proof {
                    lemma_scan_step(cells, Line::Column(i as int), mark, k, j as int, column as int);
                    lemma_scan_step(cells, Line::Row(i as int), mark, k, j as int, row as int);
                }
                column = self.counted(i, j, mark, column);
                row = self.counted(j, i, mark, row);
                if column >= criteria || row >= criteria {
                    return true;
                }
                j += 1;
            }
            proof {
                lemma_scan_end(cells, Line::Column(i as int), mark, k, column as int);
                lemma_scan_end(cells, Line::Row(i as int), mark, k, row as int);
                lemma_scan_step(cells, Line::Diagonal, mark, k, i as int, falling as int);
                lemma_scan_step(cells, Line::AntiDiagonal, mark, k, i as int, rising as int);
            }
            falling = self.counted(i, i, mark, falling);
            rising = self.counted(dim - i - 1, i, mark, rising);
            if falling >= criteria || rising >= criteria {
                return true;
            }
            i += 1;
        }
        proof {
            lemma_scan_end(cells, Line::Diagonal, mark, k, falling as int);
            lemma_scan_end(cells, Line::AntiDiagonal, mark, k, rising as int);
            lemma_no_run(cells, mark, k);
        }
        false
    }

    /// The outcome of the position where `criteria` equal marks in a row
    /// win: `Some` of the winner's mark, `Some(State::N)` for a draw, `None`
    /// while the game is open. Where both players have a run, noughts win.
    pub fn winner_with_criteria(&self, criteria: usize) -> (result: Option<State>)
        ensures
            result == outcome(self@, criteria as int),
    {
        let players = State::players();
        let mut p: usize = 0;
        while p < players.len()
            invariant
                players@ == seq![State::O, State::X],
                p <= players@.len(),
                forall|q: int| 0 <= q < p ==> !has_run(self@, #[trigger] players@[q], criteria as int),
            decreases players@.len() - p,
        {
            let mark = players[p];
            if self.has_run_of(mark, criteria) {
                return Some(mark);
            }
            p += 1;
        }
        assert(players@[0] == State::O && players@[1] == State::X);
        if self.is_full() {
            Some(State::N)
        } else {
            None
        }
    }

    /// The result of the position where `criteria` equal marks in a row win.
    pub fn evaluate(&self, criteria: usize) -> (result: GameResult)
        ensures
            result == verdict(self@, criteria as int),
    {
        match self.winner_with_criteria(criteria) {
            Some(State::N) => GameResult::Draw,
            Some(mark) => GameResult::Winner(mark),
            None => GameResult::InProgress,
        }
    }

    /// The outcome under the classic rule that a whole line wins.
    pub fn winner(&self) -> (result: Option<State>)
        ensures
            result == outcome(self@, side(self@) as int),
    {
        self.winner_with_criteria(self.dimension())
    }
}

impl FromStr for Board {
    type Err = ParseError;

    /// Reads a board from text. Each of `X`, `O`, `N` (in either case) and
    /// `_` gives one cell, `N` and `_` an empty one; every other character
    /// is skipped, so rows may be set apart by any separator. The cells must
    /// fill a square.
    fn from_str(s: &str) -> (result: Result<Board, ParseError>)
        ensures
            match result {
                Ok(board) => is_grid(parse_cells(s@)) && board@ == parse_cells(s@),
                Err(_) => !is_grid(parse_cells(s@)),
            },
    {
        let mut cells: Vec<State> = Vec::new();
        proof {
            lemma_parse_empty();
        }
        for c in it: s.chars()
            invariant
                it.seq() == s@,
                cells@ == parse_cells(it.seq().take(it.index())),
        {
            proof {
                lemma_parse_push(it.seq().take(it.index()), c);
                assert(it.seq().take(it.index() + 1) =~= it.seq().take(it.index()).push(c));
            }
            match State::from_char(c) {
                Some(mark) => cells.push(mark),
                None => {},
            }
        }
        assert(s@.take(s@.len() as int) =~= s@);
        let dim: usize = integer_sqrt(cells.len());
        if dim * dim != cells.len() {
            proof {
                if is_grid(cells@) {
                    let d = side(cells@);
                    if d <= dim {
                        lemma_square_grows(d, dim as nat);
                    } else {
                        lemma_square_grows((dim + 1) as nat, d);
                    }
                }
            }
            return Err(ParseError::NotSquare);
        }
        proof {
            lemma_side_is(cells@, dim as nat);
        }
        Ok(Board { cells, dim })
    }
}

impl PartialEq for Board {
    /// Whether two boards hold the same cells.
    fn eq(&self, other: &Board) -> (equal: bool) {
        if self.cells.len() != other.cells.len() {
            return false;
        }
        let mut i: usize = 0;
        while i < self.cells.len()
            invariant
                self.cells@.len() == other.cells@.len(),
                i <= self.cells@.len(),
                forall|k: int| 0 <= k < i ==> self.cells@[k] == other.cells@[k],
            decreases self.cells@.len() - i,
        {
            if self.cells[i] != other.cells[i] {
                return false;
            }
            i += 1;
        }
        assert(self.cells@ =~= other.cells@);
        true
    }
}

impl PartialEqSpecImpl for Board {
    open spec fn obeys_eq_spec() -> bool {
        true
    }

    open spec fn eq_spec(&self, other: &Board) -> bool {
        self@ == other@
    }
}

impl Clone for Board {
    /// A board with the same cells.
    fn clone(&self) -> (copy: Board)
        ensures
            copy@ == self@,
    {
        proof {
            use_type_invariant(self);
        }
        let cells = self.cells.clone();
        assert(cells@ =~= self.cells@);
        Board { cells, dim: self.dim }
    }
}

impl Default for Board {
    /// The classic board of three by three empty cells.
    fn default() -> (board: Board)
        ensures
            board@ == blank(3),
            side(board@) == 3,
    {
        Board::new(3)
    }
}

} // verus!
