//! A move as a player types it: one line with two whole numbers, the column
//! and then the row, set apart by one space.

use vstd::prelude::*;
use vstd::string::StrSliceExecFns;
use crate::number::{parse_number, parsed_number};

verus! {

/// Why a move was turned down.
#[derive(Copy, Clone, Debug, PartialEq, Eq, Structural)]
pub enum MoveError {
    /// The line does not hold two parts with one space between them.
    WrongTokenCount,
    /// The first part is no whole number.
    InvalidX,
    /// The second part is no whole number.
    InvalidY,
    /// The column or the row is not on the board.
    OutOfBounds,
    /// The cell is taken already. The coordinates count from 0.
    Occupied { x: usize, y: usize },
}

/// What `str::trim` makes of a line: the line without the white space at
/// its two ends.
pub uninterp spec fn trimmed(line: Seq<char>) -> Seq<char>;

/// Whether `gap` is the place of the one and only space in `text`.
pub open spec fn only_gap(text: Seq<char>, gap: int) -> bool {
    &&& 0 <= gap < text.len()
    &&& text[gap] == ' '
    &&& forall|i: int| 0 <= i < text.len() && text[i] == ' ' ==> i == gap
}

/// The move that `text` writes. The text must hold exactly one space; what
/// stands before it is the column, what stands after it the row, each a
/// whole number. A column that is no number is reported before a row that is
/// none.
pub open spec fn read_move(text: Seq<char>) -> Result<(usize, usize), MoveError> {
    if exists|gap: int| only_gap(text, gap) {
        let gap = choose|gap: int| only_gap(text, gap);
        match parsed_number(text.take(gap)) {
            None => Err(MoveError::InvalidX),
            Some(x) => match parsed_number(text.skip(gap + 1)) {
                None => Err(MoveError::InvalidY),
                Some(y) => Ok((x, y)),
            },
        }
    } else {
        Err(MoveError::WrongTokenCount)
    }
}

/// Calls `str::trim` of the standard library, which hands back the part of
/// the line between its leading and its trailing white space. This contract
/// is taken on trust. It claims only that the same line always gives the
/// same part, which it names `trimmed`; it does not say which characters
/// count as white space.
#[verifier::external_body]
fn trim(line: &str) -> (inner: &str)
    ensures
        inner@ == trimmed(line@),
{
    line.trim()
}

/// Reads a move from a text that has no white space around it.
pub fn parse_tokens(text: &str) -> (result: Result<(usize, usize), MoveError>)
    ensures
        result == read_move(text@),
{
    let len: usize = text.unicode_len();
    let mut gaps: usize = 0;
    let mut gap: usize = 0;
    let mut at: usize = 0;
    let ghost mut second: int = 0;
    for c in it: text.chars()
        invariant
            it.seq() == text@,
            len == text@.len(),
            at == it.index(),
            gaps <= 2,
            gaps == 0 ==> forall|i: int| 0 <= i < at ==> text@[i] != ' ',
            gaps == 1 ==> gap < at && text@[gap as int] == ' ' && forall|i: int|
                0 <= i < at && text@[i] == ' ' ==> i == gap,
            gaps == 2 ==> gap < second < at && text@[gap as int] == ' ' && text@[second] == ' ',
    {
        if c == ' ' {
            if gaps == 0 {
                gap = at;
                gaps = 1;
            } else if gaps == 1 {
                proof {
                    second = at as int;
                }
                gaps = 2;
            }
        }
        at += 1;
    }
    if gaps != 1 {
        proof {
            if exists|g: int| only_gap(text@, g) {
                let g = choose|g: int| only_gap(text@, g);
                if gaps == 2 {
                    assert(gap == g && second == g);
                }
            }
        }
        return Err(MoveError::WrongTokenCount);
    }
    proof {
        assert(only_gap(text@, gap as int));
        let g = choose|g: int| only_gap(text@, g);
        assert(g == gap);
        assert(text@.subrange(0, gap as int) =~= text@.take(gap as int));
        assert(text@.subrange(gap + 1, len as int) =~= text@.skip(gap + 1));
    }
    let first = text.substring_char(0, gap);
    let last = text.substring_char(gap + 1, len);
    match parse_number(first) {
        None => Err(MoveError::InvalidX),
        Some(x) => match parse_number(last) {
            None => Err(MoveError::InvalidY),
            Some(y) => Ok((x, y)),
        },
    }
}

/// Reads a move from a line as it was typed, white space around it and the
/// line break included.
pub fn parse_move(line: &str) -> (result: Result<(usize, usize), MoveError>)
    ensures
        result == read_move(trimmed(line@)),
{
    parse_tokens(trim(line))
}

} // verus!
