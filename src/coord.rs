use crate::board::BOARD_SIZE;
use vstd::prelude::*;
use vstd::string::*;

verus! {

/// Why a coordinate could not be built.
#[derive(Debug, PartialEq, Eq, Structural)]
pub enum MoveError {
    /// A row or column index is not below the board size.
    OutOfBounds,
    /// A token is not one row letter and one column digit.
    BadInput,
}

impl MoveError {
    /// The text that tells a player what was wrong.
    pub open spec fn text(self) -> Seq<char> {
        match self {
            MoveError::OutOfBounds => "This move is out of bounds"@,
            MoveError::BadInput => "This is a bad input"@,
        }
    }

    /// The text that tells a player what was wrong.
    pub fn message(&self) -> (r: String)
        ensures
            r@ == self.text(),
    {
        match self {
            MoveError::OutOfBounds => String::from_str("This move is out of bounds"),
            MoveError::BadInput => String::from_str("This is a bad input"),
        }
    }
}

/// A position on the board; both indices are below `BOARD_SIZE`.
#[derive(Debug, Clone, Copy, PartialEq, Eq, Structural)]
pub struct Move {
    row: usize,
    col: usize,
}

impl Move {
    #[verifier::type_invariant]
    spec fn in_bounds(self) -> bool {
        self.row < BOARD_SIZE && self.col < BOARD_SIZE
    }

    /// The row index of this position.
    pub closed spec fn row_index(self) -> int {
        self.row as int
    }

    /// The column index of this position.
    pub closed spec fn col_index(self) -> int {
        self.col as int
    }

    /// The position at `row`, `col`, or `OutOfBounds` when either index is
    /// not below the board size.
    pub fn new(row: usize, col: usize) -> (r: Result<Move, MoveError>)
        ensures
            r is Ok <==> row < BOARD_SIZE && col < BOARD_SIZE,
            r is Ok ==> r->Ok_0.row_index() == row && r->Ok_0.col_index() == col,
            r is Err ==> r->Err_0 == MoveError::OutOfBounds,
            r == position_of(row, col),
    {
        if row >= BOARD_SIZE || col >= BOARD_SIZE {
            Err(MoveError::OutOfBounds)
        } else {
            Ok(Move { row, col })
        }
    }

    /// The position that a two-character token names: one row letter (either
    /// case) and one column digit, in either order. Anything else is
    /// `BadInput`.
    pub fn parse(source: &str) -> (r: Result<Move, MoveError>)
        ensures
            r is Ok <==> valid_token(source@),
            r is Ok ==> (r->Ok_0.row_index(), r->Ok_0.col_index()) == token_cell(source@),
            r is Err ==> r->Err_0 == MoveError::BadInput,
    {
        if source.unicode_len() != 2 {
            return Err(MoveError::BadInput);
        }
        let first = source.get_char(0);
        let second = source.get_char(1);
        match (row_of_letter(first), col_of_digit(second)) {
            (Some(row), Some(col)) => Move::new(row, col),
            _ => match (col_of_digit(first), row_of_letter(second)) {
                (Some(col), Some(row)) => Move::new(row, col),
                _ => Err(MoveError::BadInput),
            },
        }
    }

    pub fn row(&self) -> (r: usize)
        ensures
            r == self.row_index(),
            r < BOARD_SIZE,
    {
        proof {
            use_type_invariant(self);
        }
        self.row
    }

    pub fn col(&self) -> (r: usize)
        ensures
            r == self.col_index(),
            r < BOARD_SIZE,
    {
        proof {
            use_type_invariant(self);
        }
        self.col
    }
}

/// The row that a letter names: `a` or `A` for the first row, and so on;
/// -1 for a character that is no ASCII letter.
pub open spec fn letter_row(ch: char) -> int {
    if 'a' <= ch && ch <= 'z' {
        ch as int - 'a' as int
    } else if 'A' <= ch && ch <= 'Z' {
        ch as int - 'A' as int
    } else {
        -1
    }
}

/// The column that a decimal digit names; -1 for any other character.
pub open spec fn digit_col(ch: char) -> int {
    if '0' <= ch && ch <= '9' {
        ch as int - '0' as int
    } else {
        -1
    }
}

pub open spec fn is_row_letter(ch: char) -> bool {
    0 <= letter_row(ch) < BOARD_SIZE
}

pub open spec fn is_col_digit(ch: char) -> bool {
    0 <= digit_col(ch) < BOARD_SIZE
}

/// A token names a position: two characters, one a row letter of the board
/// and the other a column digit of the board, in either order.
pub open spec fn valid_token(s: Seq<char>) -> bool {
    &&& s.len() == 2
    &&& (is_row_letter(s[0]) && is_col_digit(s[1])) || (is_col_digit(s[0]) && is_row_letter(
        s[1],
    ))
}

/// The (row, column) that a valid token names.
pub open spec fn token_cell(s: Seq<char>) -> (int, int) {
    if is_row_letter(s[0]) {
        (letter_row(s[0]), digit_col(s[1]))
    } else {
        (letter_row(s[1]), digit_col(s[0]))
    }
}

/// The row that `ch` names, if it is a row letter of the board.
fn row_of_letter(ch: char) -> (r: Option<usize>)
    ensures
        r is Some <==> is_row_letter(ch),
        r is Some ==> r->0 == letter_row(ch),
{
    if 'a' <= ch && ch <= 'z' {
        let i = (ch as u32 - 'a' as u32) as usize;
        if i < BOARD_SIZE {
            Some(i)
        } else {
            None
        }
    } else if 'A' <= ch && ch <= 'Z' {
        let i = (ch as u32 - 'A' as u32) as usize;
        if i < BOARD_SIZE {
            Some(i)
        } else {
            None
        }
    } else {
        None
    }
}

/// The column that `ch` names, if it is a column digit of the board.
fn col_of_digit(ch: char) -> (r: Option<usize>)
    ensures
        r is Some <==> is_col_digit(ch),
        r is Some ==> r->0 == digit_col(ch),
{
    if '0' <= ch && ch <= '9' {
        let i = (ch as u32 - '0' as u32) as usize;
        if i < BOARD_SIZE {
            Some(i)
        } else {
            None
        }
    } else {
        None
    }
}

/// Two valid tokens name the same position exactly when their row letters
/// agree up to case and their column digits agree; and every position on
/// the board is named by some token.
pub proof fn lemma_tokens_name_positions(s1: Seq<char>, s2: Seq<char>, row: int, col: int)
    requires
        valid_token(s1),
        valid_token(s2),
        0 <= row < BOARD_SIZE,
        0 <= col < BOARD_SIZE,
    ensures
        token_cell(s1) == token_cell(s2) <==> folded_letter(token_letter(s1)) == folded_letter(
            token_letter(s2),
        ) && token_digit(s1) == token_digit(s2),
        exists|s: Seq<char>| valid_token(s) && token_cell(s) == (row, col),
{
    let ghost s = seq![(97 + row) as char, (48 + col) as char];
    assert(valid_token(s) && token_cell(s) == (row, col));
}

/// The row letter of a valid token.
pub open spec fn token_letter(s: Seq<char>) -> char {
    if is_row_letter(s[0]) {
        s[0]
    } else {
        s[1]
    }
}

/// The column digit of a valid token.
pub open spec fn token_digit(s: Seq<char>) -> char {
    if is_row_letter(s[0]) {
        s[1]
    } else {
        s[0]
    }
}

/// A letter's code with upper case folded to lower case.
pub open spec fn folded_letter(ch: char) -> int {
    if 'A' <= ch && ch <= 'Z' {
        ch as int + 32
    } else {
        ch as int
    }
}

/// The position at `row`, `col`, when both lie on the board.
pub closed spec fn position_of(row: usize, col: usize) -> Result<Move, MoveError> {
    if row < BOARD_SIZE && col < BOARD_SIZE {
        Ok(Move { row, col })
    } else {
        Err(MoveError::OutOfBounds)
    }
}

impl TryFrom<(usize, usize)> for Move {
    type Error = MoveError;

    fn try_from(source: (usize, usize)) -> Result<Move, MoveError> {
        Move::new(source.0, source.1)
    }
}

impl core::str::FromStr for Move {
    type Err = MoveError;

    /// Reads a token as `Move::parse` does.
    fn from_str(source: &str) -> (r: Result<Move, MoveError>)
        ensures
            r is Ok <==> valid_token(source@),
            r is Ok ==> (r->Ok_0.row_index(), r->Ok_0.col_index()) == token_cell(source@),
            r is Err ==> r->Err_0 == MoveError::BadInput,
    {
        Move::parse(source)
    }
}

impl vstd::std_specs::convert::TryFromSpecImpl<(usize, usize)> for Move {
    open spec fn obeys_try_from_spec() -> bool {
        true
    }

    open spec fn try_from_spec(v: (usize, usize)) -> Result<Move, MoveError> {
        position_of(v.0, v.1)
    }
}

} // verus!
