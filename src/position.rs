use vstd::prelude::*;

use crate::aux_func::{int_to_letter, letter_to_int};

verus! {

/// A square of the board: a file letter ('A' to 'H') and a rank (1 to 8).
/// Off-board values can be represented; they are never used as board keys.
#[derive(Clone, Copy, PartialEq, Eq, Structural, Hash, Debug)]
pub struct Position {
    pub column: char,
    pub row: i32,
}

/// A move template: column delta, row delta, and whether it may be repeated.
pub type Template = (i32, i32, bool);

/// Templates are non-zero steps of at most seven squares along each axis.
pub open spec fn valid_template(mov: Template) -> bool {
    &&& -7 <= mov.0 <= 7
    &&& -7 <= mov.1 <= 7
    &&& (mov.0 != 0 || mov.1 != 0)
}

impl Position {
    /// The column number of the file: 'A' is 1.
    pub open spec fn col(self) -> int {
        self.column as int - 64
    }

    pub open spec fn on_board(self) -> bool {
        1 <= self.col() <= 8 && 1 <= self.row <= 8
    }

    /// Index of an on-board square in a column-major table of 64 squares.
    pub open spec fn index(self) -> int {
        (self.col() - 1) * 8 + (self.row - 1)
    }

    /// The square `dc` columns and `dr` rows away.
    pub open spec fn shifted(self, dc: int, dr: int) -> Position {
        Position { column: (self.col() + dc + 64) as char, row: (self.row + dr) as i32 }
    }

    pub fn equals(&self, other: &Position) -> (r: bool)
        ensures
            r == (*self == *other),
    {
        self.column == other.column && self.row == other.row
    }

    pub fn is_within_bounds(&self) -> (r: bool)
        ensures
            r == self.on_board(),
    {
        let col: i32 = letter_to_int(self.column);
        let row: i32 = self.row;
        col < 9 && col > 0 && row < 9 && row > 0
    }

    /// The square reached by applying the template once.
    pub fn next_move(&self, mov: &Template) -> (r: Position)
        requires
            -64 <= self.col() + mov.0 <= 191,
            i32::MIN <= self.row + mov.1 <= i32::MAX,
        ensures
            r == self.shifted(mov.0 as int, mov.1 as int),
            r.col() == self.col() + mov.0,
            r.row == self.row + mov.1,
    {
        let next_col = letter_to_int(self.column) + mov.0;
        let next_row = self.row + mov.1;
        Position { column: int_to_letter(next_col), row: next_row }
    }

    /// Reads a square from its file letter ('A' to 'H') and rank digit ('1' to '8').
    pub fn from_chars(file: char, rank: char) -> (r: Option<Position>)
        ensures
            r is Some <==> ('A' <= file <= 'H' && '1' <= rank <= '8'),
            r matches Some(p) ==> p.column == file && p.row == rank as int - 48 && p.on_board(),
    {
        if 'A' <= file && file <= 'H' && '1' <= rank && rank <= '8' {
            Some(Position { column: file, row: rank as i32 - 48 })
        } else {
            None
        }
    }
}

/// Two squares of the board with the same index are the same square.
pub proof fn lemma_index_injective(p: Position, q: Position)
    requires
        p.on_board(),
        q.on_board(),
        p.index() == q.index(),
    ensures
        p == q,
{
    assert(p.col() == q.col() && p.row == q.row) by (nonlinear_arith)
        requires
            1 <= p.col() <= 8,
            1 <= q.col() <= 8,
            1 <= p.row <= 8,
            1 <= q.row <= 8,
            (p.col() - 1) * 8 + (p.row - 1) == (q.col() - 1) * 8 + (q.row - 1),
    ;
}

/// A square named by its column number and rank.
pub open spec fn square(c: int, r: int) -> Position {
    Position { column: (c + 64) as char, row: r as i32 }
}

} // verus!
