//! A two-player three-in-a-row game engine on a 3×3 board, with coordinate
//! parsing and a text rendering of the board.

pub mod board;
pub mod coord;
pub mod game;
pub mod render;
pub mod text;

pub use board::{Tile, BOARD_SIZE};
pub use coord::{Move, MoveError};
pub use game::{Board, Game, GameError, Winner};
pub use render::render_board;
