use std::str::FromStr;
use tictactoe::board::{integer_sqrt, Board, ParseError};
use tictactoe::grid::GameResult;
use tictactoe::mark::State;

#[test]
fn winner() {
    assert_eq!(Board::from_str("NNN,NNN,NNN").unwrap(), Board::default());
    assert_eq!(
        Board::from_str("XXX,NNN,NNN").unwrap().winner(),
        Some(State::X)
    );
    assert_eq!(Board::from_str("XNX,NNN,NNN").unwrap().winner(), None);
    assert_eq!(
        Board::from_str("NNN,XXX,NNN").unwrap().winner(),
        Some(State::X)
    );
    assert_eq!(
        Board::from_str("XON,OXN,ONX").unwrap().winner(),
        Some(State::X)
    );
    assert_eq!(
        Board::from_str("OXN,OON,XNO").unwrap().winner(),
        Some(State::O)
    );
    println!("{}", Board::from_str("XOX,OOX,OXO").unwrap().render());
    assert_eq!(
        Board::from_str("XOX,OOX,OXO").unwrap().winner(),
        Some(State::N)
    );
    assert_eq!(
        Board::from_str("XOX,OOX,OXO")
            .unwrap()
            .winner_with_criteria(1),
        Some(State::O)
    );

    assert_eq!(
        Board::from_str("XOX,OOX,OXO")
            .unwrap()
            .winner_with_criteria(2),
        Some(State::O)
    );
}

#[test]
fn to_string() {
    assert_eq!(
        &Board::from_str("XXX,NNN,NNN").unwrap().to_string_short()[..],
        "XXX______"
    );
}

#[test]
fn new_board_is_empty() {
    let board = Board::new(4);
    assert_eq!(board.dimension(), 4);
    assert_eq!(board.to_string_short(), "_".repeat(16));
    for y in 0..4 {
        for x in 0..4 {
            assert_eq!(board.get(x, y), State::N);
        }
    }
    assert!(!board.is_full());
}

#[test]
fn default_board_is_three_by_three() {
    let board = Board::default();
    assert_eq!(board.dimension(), 3);
    assert_eq!(board, Board::new(3));
    assert_eq!(board.to_string_short(), "_________");
}

#[test]
fn board_without_cells_is_drawn_at_once() {
    let board = Board::new(0);
    assert_eq!(board.dimension(), 0);
    assert_eq!(board.to_string_short(), "");
    assert_eq!(board.render(), "");
    assert!(board.is_full());
    assert_eq!(board.winner(), Some(State::N));
    assert_eq!(board.winner_with_criteria(0), Some(State::N));
    assert_eq!(board.winner_with_criteria(1), Some(State::N));
    assert_eq!(board.evaluate(3), GameResult::Draw);
    assert_eq!(Board::from_str("").unwrap(), board);
    assert_eq!(Board::from_str(", ; -").unwrap(), board);
}

#[test]
fn cells_are_stored_row_by_row() {
    let mut board = Board::new(3);
    board.set(2, 0, State::X);
    board.set(0, 1, State::O);
    board.set(1, 2, State::X);
    assert_eq!(board.to_string_short(), "__XO___X_");
    assert_eq!(board.get(2, 0), State::X);
    assert_eq!(board.get(0, 1), State::O);
    assert_eq!(board.get(1, 2), State::X);
    assert_eq!(board.get(0, 2), State::N);
    assert_eq!(board.get(1, 0), State::N);
    assert_eq!(board.dimension(), 3);
    assert_eq!(board, Board::from_str("__X,O__,_X_").unwrap());
}

#[test]
fn set_changes_one_cell_only() {
    let mut board = Board::from_str("XO_,_X_,O__").unwrap();
    board.set(1, 1, State::O);
    assert_eq!(board.to_string_short(), "XO__O_O__");
    board.set(2, 2, State::N);
    assert_eq!(board.to_string_short(), "XO__O_O__");
}

#[test]
fn clone_is_equal_and_separate() {
    let mut board = Board::from_str("XO_,_X_,O__").unwrap();
    let copy = board.clone();
    assert_eq!(copy, board);
    board.set(2, 2, State::X);
    assert_ne!(copy, board);
    assert_eq!(copy.to_string_short(), "XO__X_O__");
}

#[test]
fn parse_reads_letters_in_either_case() {
    let board = Board::from_str("xXoOnN_Nn").unwrap();
    assert_eq!(board.to_string_short(), "XXOO_____");
    assert_eq!(board.dimension(), 3);
}

#[test]
fn parse_skips_every_other_character() {
    let plain = Board::from_str("XO_OX__XO").unwrap();
    assert_eq!(Board::from_str("XO_,OX_,_XO").unwrap(), plain);
    assert_eq!(Board::from_str("X O _\nO X _\n_ X O\n").unwrap(), plain);
    assert_eq!(Board::from_str("[X][O][_]|[O][X][_]|[_][X][O]").unwrap(), plain);
    assert_eq!(Board::from_str("1X2O3_4O5X6_7_8X9O").unwrap(), plain);
    assert_eq!(Board::from_str("é✓XO_OX__XO✓").unwrap(), plain);
}

#[test]
fn parse_rejects_a_count_that_is_no_square() {
    assert_eq!(Board::from_str("X").unwrap().dimension(), 1);
    assert_eq!(Board::from_str("XO"), Err(ParseError::NotSquare));
    assert_eq!(Board::from_str("XOX"), Err(ParseError::NotSquare));
    assert_eq!(Board::from_str("X_X/XXX"), Err(ParseError::NotSquare));
    assert_eq!(Board::from_str("XXX,NNN,NN"), Err(ParseError::NotSquare));
    assert_eq!(Board::from_str("XXX,NNN,NNNN"), Err(ParseError::NotSquare));
    assert_eq!(Board::from_str("NNNN,NNNN,NNNN,NNN_").unwrap(), Board::new(4));
}

#[test]
fn parse_of_all_empty_is_new() {
    assert_eq!(Board::from_str("NNN,NNN,NNN").unwrap(), Board::new(3));
    assert_eq!(Board::from_str("_").unwrap(), Board::new(1));
    assert_eq!(Board::from_str("nn\nnn").unwrap(), Board::new(2));
}

#[test]
fn compact_form_reads_back() {
    for text in [
        "",
        "X",
        "_",
        "XO_O",
        "XOXOOXOXO",
        "_________",
        "XO__XO__XO__XO_X",
        "XXXXXOOOOO_____XOXOXOXOXO",
    ] {
        let board = Board::from_str(text).unwrap();
        assert_eq!(board.to_string_short(), text);
        assert_eq!(Board::from_str(&board.to_string_short()).unwrap(), board);
    }
    let mut board = Board::new(5);
    board.set(4, 0, State::X);
    board.set(0, 4, State::O);
    board.set(2, 3, State::X);
    assert_eq!(Board::from_str(&board.to_string_short()).unwrap(), board);
}

#[test]
fn render_puts_each_row_on_a_line() {
    assert_eq!(
        Board::from_str("XOX,OOX,OXO").unwrap().render(),
        "[X][O][X]\n[O][O][X]\n[O][X][O]\n"
    );
    assert_eq!(
        Board::from_str("X_,_O").unwrap().render(),
        "[X][_]\n[_][O]\n"
    );
    assert_eq!(Board::new(1).render(), "[_]\n");
    let mut board = Board::new(3);
    board.set(2, 0, State::X);
    board.set(0, 1, State::O);
    assert_eq!(board.render(), "[_][_][X]\n[O][_][_]\n[_][_][_]\n");
}

#[test]
fn integer_sqrt_rounds_down() {
    assert_eq!(integer_sqrt(0), 0);
    assert_eq!(integer_sqrt(1), 1);
    assert_eq!(integer_sqrt(2), 1);
    assert_eq!(integer_sqrt(3), 1);
    assert_eq!(integer_sqrt(4), 2);
    assert_eq!(integer_sqrt(8), 2);
    assert_eq!(integer_sqrt(9), 3);
    assert_eq!(integer_sqrt(15), 3);
    assert_eq!(integer_sqrt(16), 4);
    assert_eq!(integer_sqrt(99), 9);
    assert_eq!(integer_sqrt(100), 10);
    assert_eq!(integer_sqrt(1_000_000), 1000);
    assert_eq!(integer_sqrt(999_999), 999);
}
