use crate::board::{Tile, BOARD_SIZE};
use crate::coord::Move;
use crate::text::{decimal, usize_text};
use vstd::prelude::*;
use vstd::string::*;

verus! {

/// The cells of the board, by row and then column; `None` is an empty cell.
pub type Board = [[Option<Tile>; BOARD_SIZE]; BOARD_SIZE];

/// How a finished game ended.
#[derive(Debug, Clone, Copy, PartialEq, Eq, Structural)]
pub enum Winner {
    Player(Tile),
    Tie,
}

/// Why a move was refused.
#[derive(Debug, PartialEq, Eq, Structural)]
pub enum GameError {
    /// Every cell is taken. The engine never reports it: a move that fills
    /// the last cell ends the game, and a taken target cell is reported first.
    BoardFull,
    /// The game has an outcome already.
    GameDone,
    /// The target cell at row `x`, column `y` already holds a mark.
    PlaceFilled { x: usize, y: usize },
}

impl Winner {
    /// The announcement of this outcome.
    pub open spec fn text(self) -> Seq<char> {
        match self {
            Winner::Player(Tile::O) => "O is the winner!"@,
            Winner::Player(Tile::X) => "X won this game!"@,
            Winner::Tie => "no winner!"@,
        }
    }

    /// The announcement of this outcome.
    pub fn message(&self) -> (r: String)
        ensures
            r@ == self.text(),
    {
        match self {
            Winner::Player(Tile::O) => String::from_str("O is the winner!"),
            Winner::Player(Tile::X) => String::from_str("X won this game!"),
            Winner::Tie => String::from_str("no winner!"),
        }
    }
}

impl From<Tile> for Winner {
    /// The win of the given mark.
    fn from(source: Tile) -> (r: Winner)
        ensures
            r == Winner::Player(source),
    {
        Winner::Player(source)
    }
}

impl vstd::std_specs::convert::FromSpecImpl<Tile> for Winner {
    open spec fn obeys_from_spec() -> bool {
        true
    }

    open spec fn from_spec(v: Tile) -> Winner {
        Winner::Player(v)
    }
}

impl GameError {
    /// The text that tells a player why the move was refused.
    pub open spec fn text(self) -> Seq<char> {
        match self {
            GameError::BoardFull => "Board is full"@,
            GameError::GameDone => "Game is already done"@,
            GameError::PlaceFilled { x, y } => "The place "@ + decimal(x as nat) + ", "@ + decimal(
                y as nat,
            ) + " is filled"@,
        }
    }

    /// The text that tells a player why the move was refused.
    pub fn message(&self) -> (r: String)
        ensures
            r@ == self.text(),
    {
        match self {
            GameError::BoardFull => String::from_str("Board is full"),
            GameError::GameDone => String::from_str("Game is already done"),
            GameError::PlaceFilled { x, y } => {
                let mut out = String::from_str("The place ");
                let row = usize_text(*x);
                out.append(row.as_str());
                out.append(", ");
                let col = usize_text(*y);
                out.append(col.as_str());
                out.append(" is filled");
                out
            },
        }
    }
}

pub open spec fn in_board(i: int) -> bool {
    0 <= i < BOARD_SIZE
}

/// Row `row` holds `t` in every cell.
pub open spec fn row_won(b: Board, row: int, t: Tile) -> bool {
    forall|c: int| in_board(c) ==> #[trigger] b[row][c] == Some(t)
}

/// Column `col` holds `t` in every cell.
pub open spec fn col_won(b: Board, col: int, t: Tile) -> bool {
    forall|r: int| in_board(r) ==> #[trigger] b[r][col] == Some(t)
}

/// The diagonal from the top left corner holds `t` in every cell.
pub open spec fn main_diag_won(b: Board, t: Tile) -> bool {
    forall|i: int| in_board(i) ==> #[trigger] b[i][i] == Some(t)
}

/// The diagonal from the top right corner holds `t` in every cell.
pub open spec fn anti_diag_won(b: Board, t: Tile) -> bool {
    forall|i: int| in_board(i) ==> #[trigger] b[i][BOARD_SIZE - 1 - i] == Some(t)
}

/// Some full row, column or diagonal holds `t` in every cell.
pub open spec fn has_line(b: Board, t: Tile) -> bool {
    ||| exists|r: int| in_board(r) && #[trigger] row_won(b, r, t)
    ||| exists|c: int| in_board(c) && #[trigger] col_won(b, c, t)
    ||| main_diag_won(b, t)
    ||| anti_diag_won(b, t)
}

/// A line through the cell at `row`, `col` holds `t` in every cell.
pub open spec fn line_through(b: Board, row: int, col: int, t: Tile) -> bool {
    ||| row_won(b, row, t)
    ||| col_won(b, col, t)
    ||| row == col && main_diag_won(b, t)
    ||| row + col == BOARD_SIZE - 1 && anti_diag_won(b, t)
}

/// No cell is empty.
pub open spec fn board_full(b: Board) -> bool {
    forall|r: int, c: int| in_board(r) && in_board(c) ==> (#[trigger] b[r][c]) is Some
}

/// A board on which no cell is taken.
pub open spec fn board_empty(b: Board) -> bool {
    forall|r: int, c: int| in_board(r) && in_board(c) ==> (#[trigger] b[r][c]) is None
}

/// `after` is `before` with `t` placed at `row`, `col`.
pub open spec fn placed(before: Board, after: Board, row: int, col: int, t: Tile) -> bool {
    forall|r: int, c: int|
        in_board(r) && in_board(c) ==> #[trigger] after[r][c] == if r == row && c == col {
            Some(t)
        } else {
            before[r][c]
        }
}

/// The outcome once `t` has been placed at `row`, `col` of `b`: a win for
/// `t` when a line through that cell is complete, else a tie when the board
/// is full, else none.
pub open spec fn outcome_after(b: Board, row: int, col: int, t: Tile) -> Option<Winner> {
    if line_through(b, row, col, t) {
        Some(Winner::Player(t))
    } else if board_full(b) {
        Some(Winner::Tie)
    } else {
        None
    }
}

/// Number of taken cells among the first `n` cells of `row`.
pub open spec fn count_in_row(row: [Option<Tile>; BOARD_SIZE], n: int) -> nat
    decreases n,
{
    if n <= 0 {
        0
    } else {
        count_in_row(row, n - 1) + if row[n - 1] is Some {
            1nat
        } else {
            0nat
        }
    }
}

/// Number of taken cells in the first `n` rows of `b`.
pub open spec fn count_in_rows(b: Board, n: int) -> nat
    decreases n,
{
    if n <= 0 {
        0
    } else {
        count_in_rows(b, n - 1) + count_in_row(b[n - 1], BOARD_SIZE as int)
    }
}

/// Number of taken cells on the board.
pub open spec fn filled_count(b: Board) -> nat {
    count_in_rows(b, BOARD_SIZE as int)
}

/// A placement that creates a line creates it through the placed cell, with
/// the placed mark, when the board had no line before.
proof fn lemma_new_line_through_move(
    before: Board,
    after: Board,
    row: int,
    col: int,
    t: Tile,
    u: Tile,
)
    requires
        in_board(row),
        in_board(col),
        placed(before, after, row, col, t),
        !has_line(before, Tile::X),
        !has_line(before, Tile::O),
        has_line(after, u),
    ensures
        u == t,
        line_through(after, row, col, t),
{
    if exists|r: int| in_board(r) && #[trigger] row_won(after, r, u) {
        let r = choose|r: int| in_board(r) && #[trigger] row_won(after, r, u);
        if r != row {
            assert forall|c: int| in_board(c) implies #[trigger] before[r][c] == Some(u) by {
                assert(after[r][c] == Some(u));
            }
            assert(row_won(before, r, u));
            assert(has_line(before, u));
        } else {
            assert(after[row][col] == Some(u));
        }
    } else if exists|c: int| in_board(c) && #[trigger] col_won(after, c, u) {
        let c = choose|c: int| in_board(c) && #[trigger] col_won(after, c, u);
        if c != col {
            assert forall|r: int| in_board(r) implies #[trigger] before[r][c] == Some(u) by {
                assert(after[r][c] == Some(u));
            }
            assert(col_won(before, c, u));
            assert(has_line(before, u));
        } else {
            assert(after[row][col] == Some(u));
        }
    } else if main_diag_won(after, u) {
        if row != col {
            assert forall|i: int| in_board(i) implies #[trigger] before[i][i] == Some(u) by {
                assert(after[i][i] == Some(u));
            }
            assert(main_diag_won(before, u));
            assert(has_line(before, u));
        } else {
            assert(after[row][row] == Some(u));
        }
    } else {
        assert(anti_diag_won(after, u));
        if row + col != BOARD_SIZE - 1 {
            assert forall|i: int| in_board(i) implies #[trigger] before[i][BOARD_SIZE - 1 - i]
                == Some(u) by {
                assert(after[i][BOARD_SIZE - 1 - i] == Some(u));
            }
            assert(anti_diag_won(before, u));
            assert(has_line(before, u));
        } else {
            assert(after[row][BOARD_SIZE - 1 - row] == Some(u));
        }
    }
}

/// Filling the empty cell `col` of a row adds one to the count of its first
/// `n` cells when `col` is among them.
proof fn lemma_count_in_row_fill(
    before: [Option<Tile>; BOARD_SIZE],
    after: [Option<Tile>; BOARD_SIZE],
    col: int,
    n: int,
)
    requires
        0 <= n <= BOARD_SIZE,
        in_board(col),
        before[col] is None,
        after[col] is Some,
        forall|c: int| in_board(c) && c != col ==> #[trigger] after[c] == before[c],
    ensures
        count_in_row(after, n) == count_in_row(before, n) + if col < n {
            1nat
        } else {
            0nat
        },
    decreases n,
{
    if n > 0 {
        lemma_count_in_row_fill(before, after, col, n - 1);
    }
}

/// Filling one empty cell adds one to the count of taken cells of the first
/// `n` rows when its row is among them.
proof fn lemma_count_in_rows_fill(before: Board, after: Board, row: int, col: int, t: Tile, n: int)
    requires
        0 <= n <= BOARD_SIZE,
        in_board(row),
        in_board(col),
        before[row][col] is None,
        placed(before, after, row, col, t),
    ensures
        count_in_rows(after, n) == count_in_rows(before, n) + if row < n {
            1nat
        } else {
            0nat
        },
    decreases n,
{
    if n > 0 {
        lemma_count_in_rows_fill(before, after, row, col, t, n - 1);
        let r = n - 1;
        if r == row {
            assert(after[row][col] is Some);
            lemma_count_in_row_fill(before[row], after[row], col, BOARD_SIZE as int);
        } else {
            assert(after[r] =~= before[r]) by {
                assert forall|c: int| 0 <= c < BOARD_SIZE implies after[r]@[c] == before[r]@[c] by {
                    assert(after[r][c] == before[r][c]);
                }
            }
        }
    }
}

proof fn lemma_count_in_rows_empty(b: Board, n: int)
    requires
        0 <= n <= BOARD_SIZE,
        board_empty(b),
    ensures
        count_in_rows(b, n) == 0,
    decreases n,
{
    if n > 0 {
        lemma_count_in_rows_empty(b, n - 1);
        let r = n - 1;
        assert forall|k: int| 0 <= k <= BOARD_SIZE implies count_in_row(#[trigger] b[r], k)
            == 0 by {
            lemma_count_in_row_empty(b, r, k);
        }
    }
}

proof fn lemma_count_in_row_empty(b: Board, r: int, k: int)
    requires
        in_board(r),
        0 <= k <= BOARD_SIZE,
        board_empty(b),
    ensures
        count_in_row(b[r], k) == 0,
    decreases k,
{
    if k > 0 {
        lemma_count_in_row_empty(b, r, k - 1);
        assert(b[r][k - 1] is None);
    }
}

/// An empty board has no taken cell, no line and is not full.
proof fn lemma_empty_board(b: Board)
    requires
        board_empty(b),
    ensures
        filled_count(b) == 0,
        !has_line(b, Tile::X),
        !has_line(b, Tile::O),
        !board_full(b),
{
    lemma_count_in_rows_empty(b, BOARD_SIZE as int);
    assert(b[0][0] is None);
    assert(b[0][BOARD_SIZE - 1 - 0] is None);
    assert forall|r: int, t: Tile| in_board(r) implies !#[trigger] row_won(b, r, t) by {
        assert(b[r][0] is None);
    }
    assert forall|c: int, t: Tile| in_board(c) implies !#[trigger] col_won(b, c, t) by {
        assert(b[0][c] is None);
    }
}

/// A line through a cell is a line.
proof fn lemma_line_through_is_line(b: Board, row: int, col: int, t: Tile)
    requires
        in_board(row),
        in_board(col),
        line_through(b, row, col, t),
    ensures
        has_line(b, t),
{
    if row_won(b, row, t) {
        assert(in_board(row) && row_won(b, row, t));
    } else if col_won(b, col, t) {
        assert(in_board(col) && col_won(b, col, t));
    }
}

/// Whether `cell` holds `t`.
fn holds(cell: Option<Tile>, t: Tile) -> (r: bool)
    ensures
        r == (cell == Some(t)),
{
    match cell {
        Some(u) => u == t,
        None => false,
    }
}

/// A game in progress or finished: the board, the outcome once there is
/// one, and the mark that moves next.
pub struct Game {
    pub winner: Option<Winner>,
    pub board: Board,
    pub current_piece: Tile,
}

impl Game {
    /// A game as play reaches it: while it has no outcome, no line is
    /// complete and some cell is empty.
    pub open spec fn wf(self) -> bool {
        self.winner is None ==> {
            &&& !has_line(self.board, Tile::X)
            &&& !has_line(self.board, Tile::O)
            &&& !board_full(self.board)
        }
    }

    /// What a move at `mv` returns: the taken cell is reported first, then a
    /// finished game.
    pub open spec fn play_result(self, mv: Move) -> Result<(), GameError> {
        let (row, col) = (mv.row_index(), mv.col_index());
        if self.board[row][col] is Some {
            Err(GameError::PlaceFilled { x: row as usize, y: col as usize })
        } else if self.winner is Some {
            Err(GameError::GameDone)
        } else {
            Ok(())
        }
    }

    /// `after` is this game once the mark to move has been placed at `mv`:
    /// the outcome is evaluated on the lines through that cell, and the
    /// other mark moves next.
    pub open spec fn played(self, after: Game, mv: Move) -> bool {
        let (row, col) = (mv.row_index(), mv.col_index());
        &&& placed(self.board, after.board, row, col, self.current_piece)
        &&& after.winner == outcome_after(after.board, row, col, self.current_piece)
        &&& after.current_piece == self.current_piece.other()
    }

    /// A fresh game: empty board, no outcome, X to move.
    pub fn new() -> (r: Game)
        ensures
            board_empty(r.board),
            r.winner is None,
            r.current_piece == Tile::X,
            filled_count(r.board) == 0,
            r.wf(),
    {
        let r = Game {
            winner: None,
            board: [[None;BOARD_SIZE];BOARD_SIZE],
            current_piece: Tile::X,
        };
        proof {
            lemma_empty_board(r.board);
        }
        r
    }

    /// Places the mark to move at `mv`, records the outcome that this brings
    /// and hands the turn to the other mark. A taken cell, and then a finished
    /// game, are refused and leave the game as it was.
    pub fn play(&mut self, mv: Move) -> (r: Result<(), GameError>)
        ensures
            r == old(self).play_result(mv),
            r is Err ==> *final(self) == *old(self),
            r is Ok ==> old(self).played(*final(self), mv),
            old(self).board[mv.row_index()][mv.col_index()] is Some ==> r == Err::<(), GameError>(
                GameError::PlaceFilled { x: mv.row_index() as usize, y: mv.col_index() as usize },
            ),
            old(self).board[mv.row_index()][mv.col_index()] is None && old(self).winner is Some
                ==> r == Err::<(), GameError>(GameError::GameDone),
            r is Ok ==> filled_count(final(self).board) == filled_count(old(self).board) + 1,
            r is Ok ==> final(self).current_piece == old(self).current_piece.other(),
            old(self).wf() ==> final(self).wf(),
            r is Ok && old(self).wf() ==> forall|t: Tile|
                has_line(final(self).board, t) ==> final(self).winner == Some(Winner::Player(t)),
            r is Ok && board_full(final(self).board) && !has_line(final(self).board, Tile::X)
                && !has_line(final(self).board, Tile::O) ==> final(self).winner == Some(
                Winner::Tie,
            ),
    {
        let row = mv.row();
        let col = mv.col();
        if self.board[row][col].is_some() {
            return Err(GameError::PlaceFilled { x: row, y: col });
        } else if self.winner.is_some() {
            return Err(GameError::GameDone);
        }
        let ghost before = *self;
        self.board[row][col] = Some(self.current_piece);
        assert(placed(before.board, self.board, row as int, col as int, before.current_piece));
        self.winner = self.check_winner(row, col);
        self.current_piece = self.current_piece.switch();
        proof {
            lemma_count_in_rows_fill(
                before.board,
                self.board,
                row as int,
                col as int,
                before.current_piece,
                BOARD_SIZE as int,
            );
            if before.wf() {
                assert forall|t: Tile| has_line(self.board, t) implies self.winner == Some(
                    Winner::Player(t),
                ) by {
                    lemma_new_line_through_move(
                        before.board,
                        self.board,
                        row as int,
                        col as int,
                        before.current_piece,
                        t,
                    );
                }
            }
            if before.wf() && self.winner is None {
                assert forall|t: Tile| !has_line(self.board, t) by {
                    if has_line(self.board, t) {
                        lemma_new_line_through_move(
                            before.board,
                            self.board,
                            row as int,
                            col as int,
                            before.current_piece,
                            t,
                        );
                    }
                }
            }
            if !has_line(self.board, Tile::X) && !has_line(self.board, Tile::O) {
                assert(!line_through(self.board, row as int, col as int, before.current_piece)) by {
                    if line_through(self.board, row as int, col as int, before.current_piece) {
                        lemma_line_through_is_line(
                            self.board,
                            row as int,
                            col as int,
                            before.current_piece,
                        );
                    }
                }
            }
        }
        Ok(())
    }

    fn is_full(&self) -> (r: bool)
        ensures
            r == board_full(self.board),
    {
        let mut row: usize = 0;
        while row < BOARD_SIZE
            invariant
                row <= BOARD_SIZE,
                forall|r: int, c: int|
                    0 <= r < row && in_board(c) ==> (#[trigger] self.board[r][c]) is Some,
            decreases BOARD_SIZE - row,
        {
            let mut col: usize = 0;
            while col < BOARD_SIZE
                invariant
                    row < BOARD_SIZE,
                    col <= BOARD_SIZE,
                    forall|c: int| 0 <= c < col ==> (#[trigger] self.board[row as int][c]) is Some,
                decreases BOARD_SIZE - col,
            {
                if self.board[row][col].is_none() {
                    return false;
                }
                col += 1;
            }
            row += 1;
        }
        true
    }

    fn check_horizontal(&self, row: usize) -> (r: Option<Winner>)
        requires
            row < BOARD_SIZE,
        ensures
            r == if row_won(self.board, row as int, self.current_piece) {
                Some(Winner::Player(self.current_piece))
            } else {
                None
            },
    {
        let mut col: usize = 0;
        while col < BOARD_SIZE
            invariant
                row < BOARD_SIZE,
                col <= BOARD_SIZE,
                forall|c: int|
                    0 <= c < col ==> #[trigger] self.board[row as int][c] == Some(self.current_piece),
            decreases BOARD_SIZE - col,
        {
            if !holds(self.board[row][col], self.current_piece) {
                return None;
            }
            col += 1;
        }
        Some(Winner::from(self.current_piece))
    }

    fn check_vetical(&self, col: usize) -> (r: Option<Winner>)
        requires
            col < BOARD_SIZE,
        ensures
            r == if col_won(self.board, col as int, self.current_piece) {
                Some(Winner::Player(self.current_piece))
            } else {
                None
            },
    {
        let mut row: usize = 0;
        while row < BOARD_SIZE
            invariant
                col < BOARD_SIZE,
                row <= BOARD_SIZE,
                forall|r: int|
                    0 <= r < row ==> #[trigger] self.board[r][col as int] == Some(self.current_piece),
            decreases BOARD_SIZE - row,
        {
            if !holds(self.board[row][col], self.current_piece) {
                return None;
            }
            row += 1;
        }
        Some(Winner::from(self.current_piece))
    }

    /// Whether the main diagonal holds the mark to move in every cell.
    fn main_diagonal_full(&self) -> (r: bool)
        ensures
            r == main_diag_won(self.board, self.current_piece),
    {
        let mut i: usize = 0;
        while i < BOARD_SIZE
            invariant
                i <= BOARD_SIZE,
                forall|k: int|
                    0 <= k < i ==> #[trigger] self.board[k][k] == Some(self.current_piece),
            decreases BOARD_SIZE - i,
        {
            if !holds(self.board[i][i], self.current_piece) {
                return false;
            }
            i += 1;
        }
        true
    }

    /// Whether the anti-diagonal holds the mark to move in every cell.
    fn anti_diagonal_full(&self) -> (r: bool)
        ensures
            r == anti_diag_won(self.board, self.current_piece),
    {
        let mut i: usize = 0;
        while i < BOARD_SIZE
            invariant
                i <= BOARD_SIZE,
                forall|k: int|
                    0 <= k < i ==> #[trigger] self.board[k][BOARD_SIZE - 1 - k] == Some(
                        self.current_piece,
                    ),
            decreases BOARD_SIZE - i,
        {
            if !holds(self.board[i][BOARD_SIZE - 1 - i], self.current_piece) {
                return false;
            }
            i += 1;
        }
        true
    }

    fn check_diagonals(&self, row: usize, col: usize) -> (r: Option<Winner>)
        requires
            row < BOARD_SIZE,
            col < BOARD_SIZE,
        ensures
            r == if (row == col && main_diag_won(self.board, self.current_piece)) || (row + col
                == BOARD_SIZE - 1 && anti_diag_won(self.board, self.current_piece)) {
                Some(Winner::Player(self.current_piece))
            } else {
                None
            },
    {
        if row == col && self.main_diagonal_full() {
            Some(Winner::from(self.current_piece))
        } else if row + col == BOARD_SIZE - 1 && self.anti_diagonal_full() {
            Some(Winner::from(self.current_piece))
        } else {
            None
        }
    }

    fn check_tie(&self) -> (r: Option<Winner>)
        ensures
            r == if board_full(self.board) {
                Some(Winner::Tie)
            } else {
                None
            },
    {
        if self.is_full() {
            Some(Winner::Tie)
        } else {
            None
        }
    }

    fn check_winner(&self, row: usize, col: usize) -> (r: Option<Winner>)
        requires
            row < BOARD_SIZE,
            col < BOARD_SIZE,
        ensures
            r == outcome_after(self.board, row as int, col as int, self.current_piece),
    {
        let horizontal = self.check_horizontal(row);
        if horizontal.is_some() {
            return horizontal;
        }
        let vertical = self.check_vetical(col);
        if vertical.is_some() {
            return vertical;
        }
        let diagonal = self.check_diagonals(row, col);
        if diagonal.is_some() {
            return diagonal;
        }
        self.check_tie()
    }
}

} // verus!
