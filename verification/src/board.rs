//! The board: cells, snapshots, and the winner evaluator.

use vstd::prelude::*;

verus! {

/// One cell of the 3x3 grid: empty, or marked by one of the two players.
#[derive(Clone, Copy, Debug, PartialEq, Eq, Structural)]
pub enum Cell {
    Empty,
    X,
    O,
}

impl Cell {
    /// The text a rendering layer shows for this cell: "X", "O", or nothing.
    pub open spec fn label_spec(self) -> Seq<char> {
        match self {
            Cell::X => seq!['X'],
            Cell::O => seq!['O'],
            Cell::Empty => Seq::<char>::empty(),
        }
    }

    /// Renders this cell as text: "X", "O", or the empty string.
    pub fn label(self) -> (s: String)
        ensures
            s@ == self.label_spec(),
    {
        match self {
            Cell::X => {
                let s = "X".to_owned();
                proof {
                    reveal_strlit("X");
                    assert(s@ =~= seq!['X']);
                }
                s
            },
            Cell::O => {
                let s = "O".to_owned();
                proof {
                    reveal_strlit("O");
                    assert(s@ =~= seq!['O']);
                }
                s
            },
            Cell::Empty => {
                let s = "".to_owned();
                proof {
                    reveal_strlit("");
                    assert(s@ =~= Seq::<char>::empty());
                }
                s
            },
        }
    }
}

/// One immutable snapshot of the full 3x3 board: nine cells in row-major
/// order (rows {0,1,2}, {3,4,5}, {6,7,8}).
#[derive(Clone, Copy, Debug, PartialEq, Eq)]
pub struct Board {
    pub cells: [Cell; 9],
}

impl View for Board {
    type V = Seq<Cell>;

    open spec fn view(&self) -> Seq<Cell> {
        self.cells@
    }
}

/// The all-empty board, the first snapshot of every game.
pub open spec fn empty_board() -> Seq<Cell> {
    Seq::new(9, |i: int| Cell::Empty)
}

/// Every cell is occupied: with no winner, such a board is a draw.
pub open spec fn board_full(s: Seq<Cell>) -> bool {
    forall|i: int| 0 <= i < 9 ==> s[i] != Cell::Empty
}

/// The symbol holding a whole line through cells a, b, c, or `Empty`
/// if the line is not uniformly occupied.
pub open spec fn line_winner(s: Seq<Cell>, a: int, b: int, c: int) -> Cell {
    if s[a] != Cell::Empty && s[a] == s[b] && s[a] == s[c] {
        s[a]
    } else {
        Cell::Empty
    }
}

/// The winner of a snapshot: the symbol of the first of the eight fixed
/// lines (rows top to bottom, columns left to right, the two diagonals)
/// whose three cells are equal and occupied; `Empty` if no line qualifies.
#[verifier::opaque]
pub open spec fn winner_of(s: Seq<Cell>) -> Cell {
    if line_winner(s, 0, 1, 2) != Cell::Empty {
        line_winner(s, 0, 1, 2)
    } else if line_winner(s, 3, 4, 5) != Cell::Empty {
        line_winner(s, 3, 4, 5)
    } else if line_winner(s, 6, 7, 8) != Cell::Empty {
        line_winner(s, 6, 7, 8)
    } else if line_winner(s, 0, 3, 6) != Cell::Empty {
        line_winner(s, 0, 3, 6)
    } else if line_winner(s, 1, 4, 7) != Cell::Empty {
        line_winner(s, 1, 4, 7)
    } else if line_winner(s, 2, 5, 8) != Cell::Empty {
        line_winner(s, 2, 5, 8)
    } else if line_winner(s, 0, 4, 8) != Cell::Empty {
        line_winner(s, 0, 4, 8)
    } else if line_winner(s, 2, 4, 6) != Cell::Empty {
        line_winner(s, 2, 4, 6)
    } else {
        Cell::Empty
    }
}

impl Board {
    /// A fresh, all-empty board.
    pub fn new() -> (b: Board)
        ensures
            b@ == empty_board(),
    {
        let b = Board { cells: [Cell::Empty; 9] };
        proof {
            assert(b@ =~= empty_board());
        }
        b
    }

    /// A board with the given nine cells.
    pub fn from_cells(cells: [Cell; 9]) -> (b: Board)
        ensures
            b@ == cells@,
    {
        Board { cells }
    }

    /// Reads one cell.
    pub fn get(&self, i: usize) -> (c: Cell)
        requires
            i < 9,
        ensures
            c == self@[i as int],
    {
        self.cells[i]
    }

    /// Whether every cell is occupied.
    pub fn is_full(&self) -> (r: bool)
        ensures
            r == board_full(self@),
    {
        let mut i: usize = 0;
        while i < 9
            invariant
                i <= 9,
                forall|j: int| 0 <= j < i ==> self@[j] != Cell::Empty,
            decreases 9 - i,
        {
            if self.cells[i] == Cell::Empty {
                proof {
                    assert(self@[i as int] == Cell::Empty);
                }
                return false;
            }
            i = i + 1;
        }
        true
    }
}

/// The winner of a snapshot, by the first-match rule of `winner_of`.
pub fn evaluate(b: &Board) -> (w: Cell)
    ensures
        w == winner_of(b@),
{
    proof {
        reveal(winner_of);
    }
    let c = &b.cells;
    if c[0] != Cell::Empty && c[0] == c[1] && c[0] == c[2] {
        c[0]
    } else if c[3] != Cell::Empty && c[3] == c[4] && c[3] == c[5] {
        c[3]
    } else if c[6] != Cell::Empty && c[6] == c[7] && c[6] == c[8] {
        c[6]
    } else if c[0] != Cell::Empty && c[0] == c[3] && c[0] == c[6] {
        c[0]
    } else if c[1] != Cell::Empty && c[1] == c[4] && c[1] == c[7] {
        c[1]
    } else if c[2] != Cell::Empty && c[2] == c[5] && c[2] == c[8] {
        c[2]
    } else if c[0] != Cell::Empty && c[0] == c[4] && c[0] == c[8] {
        c[0]
    } else if c[2] != Cell::Empty && c[2] == c[4] && c[2] == c[6] {
        c[2]
    } else {
        Cell::Empty
    }
}

} // verus!
