//! The three values a cell can hold, and the characters that stand for them.

use vstd::prelude::*;

verus! {

/// What a cell holds: a cross, a nought, or nothing.
#[derive(Copy, Clone, Debug, PartialEq, Eq, Structural)]
pub enum State {
    /// A cross, the mark of one player.
    X,
    /// A nought, the mark of the other player.
    O,
    /// No mark: the cell is empty.
    N,
}

/// The character a mark is written as.
pub open spec fn symbol_of(mark: State) -> char {
    match mark {
        State::X => 'X',
        State::O => 'O',
        State::N => '_',
    }
}

/// The mark a character is read as, if it is read as one at all. Letters
/// count in either case; `N` and `_` both stand for the empty cell.
pub open spec fn mark_of(c: char) -> Option<State> {
    if c == 'X' || c == 'x' {
        Some(State::X)
    } else if c == 'O' || c == 'o' {
        Some(State::O)
    } else if c == 'N' || c == 'n' || c == '_' {
        Some(State::N)
    } else {
        None
    }
}

/// The mark of the player who moves after `mark`.
pub open spec fn other_player(mark: State) -> State {
    match mark {
        State::X => State::O,
        State::O => State::X,
        State::N => State::N,
    }
}

impl State {
    /// The two players, in the order in which a board is searched for a winner.
    pub fn players() -> (order: &'static [State])
        ensures
            order@ == seq![State::O, State::X],
    {
        &[State::O, State::X]
    }

    /// The player who moves after this one. The empty mark has no opponent
    /// and is handed back as it is.
    pub fn opponent(self) -> (next: State)
        ensures
            next == other_player(self),
    {
        match self {
            State::X => State::O,
            State::O => State::X,
            State::N => State::N,
        }
    }

    /// The character this mark is written as.
    pub fn symbol(self) -> (c: char)
        ensures
            c == symbol_of(self),
    {
        match self {
            State::X => 'X',
            State::O => 'O',
            State::N => '_',
        }
    }

    /// The symbol of this mark as a text of one character.
    pub fn as_str(self) -> (text: &'static str)
        ensures
            text@ == seq![symbol_of(self)],
    {
        proof {
            reveal_strlit("X");
            reveal_strlit("O");
            reveal_strlit("_");
        }
        let text = match self {
            State::X => "X",
            State::O => "O",
            State::N => "_",
        };
        assert(text@ =~= seq![symbol_of(self)]);
        text
    }

    /// Reads one character as a mark; `None` for a character that stands for
    /// no mark.
    pub fn from_char(c: char) -> (mark: Option<State>)
        ensures
            mark == mark_of(c),
    {
        match c {
            'X' | 'x' => Some(State::X),
            'O' | 'o' => Some(State::O),
            'N' | 'n' | '_' => Some(State::N),
            _ => None,
        }
    }
}

} // verus!
