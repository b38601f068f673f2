use vstd::prelude::*;

verus! {

/// Number of rows, and of columns, of the square board.
pub const BOARD_SIZE: usize = 3;

/// The mark a player places on the board.
#[derive(Debug, Clone, Copy, PartialEq, Eq, Structural)]
pub enum Tile {
    O,
    X,
}

impl Tile {
    /// The mark of the other player.
    pub open spec fn other(self) -> Tile {
        match self {
            Tile::O => Tile::X,
            Tile::X => Tile::O,
        }
    }

    /// The letter that shows this mark.
    pub open spec fn letter(self) -> char {
        match self {
            Tile::O => 'O',
            Tile::X => 'X',
        }
    }

    /// The letter that shows this mark.
    pub fn symbol(self) -> (r: char)
        ensures
            r == self.letter(),
    {
        match self {
            Tile::O => 'O',
            Tile::X => 'X',
        }
    }

    pub(crate) fn switch(self) -> (r: Tile)
        ensures
            r == self.other(),
    {
        match self {
            Tile::O => Tile::X,
            Tile::X => Tile::O,
        }
    }
}

} // verus!
