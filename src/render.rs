use crate::board::{Tile, BOARD_SIZE};
use crate::game::{Board, Game};
use crate::text::push_char;
use vstd::prelude::*;

verus! {

/// The character that shows a cell: its mark, or `~` when empty.
pub open spec fn cell_symbol(c: Option<Tile>) -> char {
    match c {
        Some(Tile::X) => 'X',
        Some(Tile::O) => 'O',
        None => '~',
    }
}

/// The first `n` cells of a row, each as its symbol between two spaces.
pub open spec fn cells_text(row: [Option<Tile>; BOARD_SIZE], n: int) -> Seq<char>
    decreases n,
{
    if n <= 0 {
        seq![]
    } else {
        cells_text(row, n - 1) + seq![' ', cell_symbol(row[n - 1]), ' ']
    }
}

/// The column indices `0` to `n - 1`, joined by `--`.
pub open spec fn header_text(n: int) -> Seq<char>
    decreases n,
{
    if n <= 0 {
        seq![]
    } else if n == 1 {
        seq!['0']
    } else {
        header_text(n - 1) + seq!['-', '-', (48 + n - 1) as char]
    }
}

/// The first `n` rows, each on a line of its own, led by its letter
/// (`A` for the first row) and a space.
pub open spec fn rows_text(b: Board, n: int) -> Seq<char>
    decreases n,
{
    if n <= 0 {
        seq![]
    } else {
        rows_text(b, n - 1) + seq![(65 + n - 1) as char, ' '] + cells_text(
            b[n - 1],
            BOARD_SIZE as int,
        ) + seq!['\n']
    }
}

/// The whole board as text: an empty line, the column header indented by
/// three spaces, then the rows.
pub open spec fn board_text(b: Board) -> Seq<char> {
    seq!['\n', ' ', ' ', ' '] + header_text(BOARD_SIZE as int) + seq!['\n'] + rows_text(
        b,
        BOARD_SIZE as int,
    )
}

/// The character that shows a cell.
pub fn cell_char(c: Option<Tile>) -> (r: char)
    ensures
        r == cell_symbol(c),
{
    match c {
        Some(Tile::X) => 'X',
        Some(Tile::O) => 'O',
        None => '~',
    }
}

/// The board of `game` as text, one line per row, for display.
pub fn render_board(game: &Game) -> (r: String)
    ensures
        r@ == board_text(game.board),
{
    let mut out = String::new();
    push_char(&mut out, '\n');
    push_char(&mut out, ' ');
    push_char(&mut out, ' ');
    push_char(&mut out, ' ');
    let ghost lead = out@;
    assert(lead == seq!['\n', ' ', ' ', ' ']);
    let mut col: usize = 0;
    while col < BOARD_SIZE
        invariant
            col <= BOARD_SIZE,
            out@ == lead + header_text(col as int),
        decreases BOARD_SIZE - col,
    {
        if col > 0 {
            push_char(&mut out, '-');
            push_char(&mut out, '-');
        }
        push_char(&mut out, ((48 + col) as u8) as char);
        assert(out@ == lead + header_text(col + 1)) by {
            reveal_with_fuel(header_text, 2);
        }
        col += 1;
    }
    push_char(&mut out, '\n');
    let ghost top = out@;
    assert(top == seq!['\n', ' ', ' ', ' '] + header_text(BOARD_SIZE as int) + seq!['\n']);
    let mut row: usize = 0;
    while row < BOARD_SIZE
        invariant
            row <= BOARD_SIZE,
            out@ == top + rows_text(game.board, row as int),
        decreases BOARD_SIZE - row,
    {
        push_char(&mut out, ((65 + row) as u8) as char);
        push_char(&mut out, ' ');
        let ghost start = out@;
        let mut c: usize = 0;
        while c < BOARD_SIZE
            invariant
                row < BOARD_SIZE,
                c <= BOARD_SIZE,
                out@ == start + cells_text(game.board[row as int], c as int),
            decreases BOARD_SIZE - c,
        {
            push_char(&mut out, ' ');
            push_char(&mut out, cell_char(game.board[row][c]));
            push_char(&mut out, ' ');
            assert(out@ == start + cells_text(game.board[row as int], c + 1));
            c += 1;
        }
        push_char(&mut out, '\n');
        assert(out@ == top + rows_text(game.board, row + 1));
        row += 1;
    }
    out
}

} // verus!
