use tictactoe_core::board::{Board, Cell, evaluate};

const E: Cell = Cell::Empty;
const X: Cell = Cell::X;
const O: Cell = Cell::O;

#[test]
fn empty_board_has_no_winner() {
    let b = Board::new();
    assert_eq!(evaluate(&b), Cell::Empty);
    assert!(!b.is_full());
}

#[test]
fn row_wins() {
    assert_eq!(evaluate(&Board::from_cells([X, X, X, O, O, E, E, E, E])), X);
    assert_eq!(evaluate(&Board::from_cells([X, E, X, O, O, O, X, E, E])), O);
    assert_eq!(evaluate(&Board::from_cells([E, X, E, X, O, O, O, O, O])), O);
}

#[test]
fn column_wins() {
    assert_eq!(evaluate(&Board::from_cells([X, O, E, X, O, E, X, E, E])), X);
    assert_eq!(evaluate(&Board::from_cells([X, O, E, E, O, X, E, O, X])), O);
    assert_eq!(evaluate(&Board::from_cells([O, X, X, O, E, X, E, E, X])), X);
}

#[test]
fn diagonal_wins() {
    assert_eq!(evaluate(&Board::from_cells([X, O, E, O, X, E, E, E, X])), X);
    assert_eq!(evaluate(&Board::from_cells([X, X, O, E, O, X, O, E, E])), O);
}

#[test]
fn no_winner_on_mixed_board() {
    assert_eq!(evaluate(&Board::from_cells([X, X, O, O, O, X, X, O, X])), E);
}

#[test]
fn first_line_in_order_wins_tie_break() {
    // both the top row (X) and the middle row (O) are complete: the top
    // row comes first in evaluation order
    let b = Board::from_cells([X, X, X, O, O, O, E, E, E]);
    assert_eq!(evaluate(&b), X);
    // a row beats a column that is complete at the same time
    let c = Board::from_cells([O, X, X, O, X, X, O, E, E]);
    assert_eq!(evaluate(&c), O);
}

#[test]
fn full_board_is_full() {
    let b = Board::from_cells([X, X, O, O, O, X, X, O, X]);
    assert!(b.is_full());
    let almost = Board::from_cells([X, X, O, O, O, X, X, O, E]);
    assert!(!almost.is_full());
}

#[test]
fn cell_labels() {
    assert_eq!(Cell::X.label(), "X");
    assert_eq!(Cell::O.label(), "O");
    assert_eq!(Cell::Empty.label(), "");
}

#[test]
fn board_get_reads_cells() {
    let b = Board::from_cells([X, O, E, E, E, E, E, E, E]);
    assert_eq!(b.get(0), X);
    assert_eq!(b.get(1), O);
    assert_eq!(b.get(8), E);
}
