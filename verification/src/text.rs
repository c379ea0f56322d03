//! Boards as text: the compact form that is read and written, and the
//! bracketed display with one row per line.

use vstd::prelude::*;
use crate::grid::{cell, side};
use crate::mark::{mark_of, symbol_of, State};

verus! {

/// The cells that `text` spells: each character that stands for a mark, in
/// order, with every other character left out.
pub open spec fn parse_cells(text: Seq<char>) -> Seq<State> {
    text.filter(|c: char| mark_of(c) is Some).map_values(|c: char| mark_of(c)->0)
}

/// The compact form of a grid: the symbol of each cell, row by row, with
/// nothing in between.
pub open spec fn compact(cells: Seq<State>) -> Seq<char> {
    cells.map_values(|mark: State| symbol_of(mark))
}

/// One cell of the display: its symbol in square brackets.
pub open spec fn cell_text(mark: State) -> Seq<char> {
    seq!['[', symbol_of(mark), ']']
}

/// The display of the first `n` cells of row `y`.
pub open spec fn row_text(cells: Seq<State>, y: int, n: nat) -> Seq<char> {
    Seq::new(n, |x: int| cell_text(cell(cells, x, y))).flatten()
}

/// The display of the first `n` rows, each closed by a line feed.
pub open spec fn rows_text(cells: Seq<State>, n: nat) -> Seq<char> {
    Seq::new(n, |y: int| row_text(cells, y, side(cells)) + seq!['\n']).flatten()
}

/// The display of a grid: one line per row, each cell in square brackets.
pub open spec fn rendered(cells: Seq<State>) -> Seq<char> {
    rows_text(cells, side(cells))
}

/// The compact form of one more cell is one symbol longer.
pub proof fn lemma_compact_push(cells: Seq<State>, mark: State)
    ensures
        compact(cells.push(mark)) == compact(cells).push(symbol_of(mark)),
{
    cells.lemma_push_map_commute(|mark: State| symbol_of(mark), mark);
}

/// The display of a row grows by one cell at a time.
pub proof fn lemma_row_text_step(cells: Seq<State>, y: int, n: nat)
    ensures
        row_text(cells, y, 0) == Seq::<char>::empty(),
        row_text(cells, y, n + 1) == row_text(cells, y, n) + cell_text(cell(cells, n as int, y)),
{
    let each = |x: int| cell_text(cell(cells, x, y));
    assert(Seq::new(n + 1, each) =~= Seq::new(n, each).push(each(n as int)));
    Seq::new(n, each).lemma_flatten_push(each(n as int));
    assert(Seq::new(0, each).flatten() =~= Seq::<char>::empty());
}

/// The display of a grid grows by one row at a time.
pub proof fn lemma_rows_text_step(cells: Seq<State>, n: nat)
    ensures
        rows_text(cells, 0) == Seq::<char>::empty(),
        rows_text(cells, n + 1) == rows_text(cells, n) + row_text(cells, n as int, side(cells))
            + seq!['\n'],
{
    let each = |y: int| row_text(cells, y, side(cells)) + seq!['\n'];
    assert(Seq::new(n + 1, each) =~= Seq::new(n, each).push(each(n as int)));
    Seq::new(n, each).lemma_flatten_push(each(n as int));
    assert(Seq::new(0, each).flatten() =~= Seq::<char>::empty());
    assert(rows_text(cells, n) + (row_text(cells, n as int, side(cells)) + seq!['\n'])
        =~= rows_text(cells, n) + row_text(cells, n as int, side(cells)) + seq!['\n']);
}

/// Reading one more character adds its mark, or nothing where it stands for
/// none.
pub proof fn lemma_parse_push(text: Seq<char>, c: char)
    ensures
        parse_cells(text.push(c)) == match mark_of(c) {
            Some(mark) => parse_cells(text).push(mark),
            None => parse_cells(text),
        },
{
    let known = |c: char| mark_of(c) is Some;
    let read = |c: char| mark_of(c)->0;
    text.lemma_filter_push(c, known);
    if known(c) {
        text.filter(known).lemma_push_map_commute(read, c);
    }
}

/// A text without characters spells no cells.
pub proof fn lemma_parse_empty()
    ensures
        parse_cells(Seq::<char>::empty()) == Seq::<State>::empty(),
{
    let known = |c: char| mark_of(c) is Some;
    reveal(Seq::filter);
    assert(Seq::<char>::empty().filter(known) =~= Seq::<char>::empty());
    assert(parse_cells(Seq::<char>::empty()) =~= Seq::<State>::empty());
}

} // verus!
