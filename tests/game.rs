use std::str::FromStr;
use tictactoe::{render_board, Game, GameError, Move, MoveError, Tile, Winner};

fn at(row: usize, col: usize) -> Move {
    Move::new(row, col).unwrap()
}

fn filled(game: &Game) -> usize {
    game.board.iter().flatten().filter(|c| c.is_some()).count()
}

#[test]
fn create_game() {
    let game = Game::new();
    assert_eq!(game.board, [[None; 3]; 3]);
}

#[test]
fn create_move() {
    let _move = Move::from_str("1b").unwrap();
    assert_eq!(_move, Move::try_from((1, 1)).unwrap());
}

#[test]
fn create_other_move() {
    let _move = Move::from_str("0c").unwrap();
    assert_eq!(_move, Move::try_from((2, 0)).unwrap());
}

#[test]
fn play_move() {
    let mut game = Game::new();
    let _move = Move::from_str("0c").unwrap();
    game.play(_move).unwrap();
    assert_eq!(game.board[2][0], Some(Tile::X));
}

#[test]
fn play_game() {
    let mut game = Game::new();
    game.play(Move::from_str("0c").unwrap()).unwrap();
    game.play(Move::from_str("0b").unwrap()).unwrap();
    game.play(Move::from_str("1b").unwrap()).unwrap();
    game.play(Move::from_str("0A").unwrap()).unwrap();
    game.play(Move::from_str("2A").unwrap()).unwrap();
    assert_eq!(game.winner, Some(Winner::Player(Tile::X)));
}

#[test]
fn new_game_has_x_to_move_and_no_outcome() {
    let game = Game::new();
    assert_eq!(game.current_piece, Tile::X);
    assert_eq!(game.winner, None);
}

#[test]
fn accepted_move_fills_one_cell_and_switches_mark() {
    let mut game = Game::new();
    assert_eq!(filled(&game), 0);
    game.play(at(1, 2)).unwrap();
    assert_eq!(filled(&game), 1);
    assert_eq!(game.current_piece, Tile::O);
    game.play(at(0, 0)).unwrap();
    assert_eq!(filled(&game), 2);
    assert_eq!(game.current_piece, Tile::X);
    assert_eq!(game.board[0][0], Some(Tile::O));
}

#[test]
fn taken_cell_is_refused() {
    let mut game = Game::new();
    game.play(at(1, 2)).unwrap();
    let board = game.board;
    assert_eq!(game.play(at(1, 2)), Err(GameError::PlaceFilled { x: 1, y: 2 }));
    assert_eq!(game.board, board);
    assert_eq!(game.current_piece, Tile::O);
}

#[test]
fn finished_game_refuses_moves() {
    let mut game = Game::new();
    for (r, c) in [(0, 0), (1, 1), (0, 1), (1, 2), (0, 2)] {
        game.play(at(r, c)).unwrap();
    }
    let board = game.board;
    assert_eq!(game.play(at(2, 2)), Err(GameError::GameDone));
    assert_eq!(game.board, board);
    assert_eq!(game.winner, Some(Winner::Player(Tile::X)));
}

#[test]
fn row_completes_win() {
    let mut game = Game::new();
    for (r, c) in [(0, 0), (1, 1), (0, 1), (1, 2)] {
        game.play(at(r, c)).unwrap();
        assert_eq!(game.winner, None);
    }
    game.play(at(0, 2)).unwrap();
    assert_eq!(game.winner, Some(Winner::Player(Tile::X)));
}

#[test]
fn main_diagonal_completes_win() {
    let mut game = Game::new();
    for (r, c) in [(0, 0), (0, 1), (1, 1), (2, 0)] {
        game.play(at(r, c)).unwrap();
        assert_eq!(game.winner, None);
    }
    game.play(at(2, 2)).unwrap();
    assert_eq!(game.winner, Some(Winner::Player(Tile::X)));
}

#[test]
fn column_completes_win_for_o() {
    let mut game = Game::new();
    for (r, c) in [(0, 0), (0, 1), (1, 0), (1, 1), (2, 2)] {
        game.play(at(r, c)).unwrap();
        assert_eq!(game.winner, None);
    }
    game.play(at(2, 1)).unwrap();
    assert_eq!(game.winner, Some(Winner::Player(Tile::O)));
}

#[test]
fn anti_diagonal_through_centre_completes_win() {
    let mut game = Game::new();
    for (r, c) in [(0, 2), (0, 0), (2, 0), (0, 1)] {
        game.play(at(r, c)).unwrap();
        assert_eq!(game.winner, None);
    }
    game.play(at(1, 1)).unwrap();
    assert_eq!(game.winner, Some(Winner::Player(Tile::X)));
}

#[test]
fn full_board_without_line_is_tie() {
    let mut game = Game::new();
    // X O X / X O O / O X X
    let moves = [(0, 0), (0, 1), (0, 2), (1, 1), (1, 0), (1, 2), (2, 1), (2, 0), (2, 2)];
    for (i, (r, c)) in moves.iter().enumerate() {
        game.play(at(*r, *c)).unwrap();
        if i + 1 < moves.len() {
            assert_eq!(game.winner, None);
        }
    }
    assert_eq!(game.winner, Some(Winner::Tie));
    assert_eq!(filled(&game), 9);
}

#[test]
fn last_cell_completing_line_wins_over_tie() {
    let mut game = Game::new();
    // X O X / O O X / O X X: the last X fills the board and the right column
    let moves = [(0, 0), (0, 1), (0, 2), (1, 0), (1, 2), (1, 1), (2, 1), (2, 0)];
    for (r, c) in moves {
        game.play(at(r, c)).unwrap();
        assert_eq!(game.winner, None);
    }
    assert_eq!(game.current_piece, Tile::X);
    game.play(at(2, 2)).unwrap();
    assert_eq!(game.winner, Some(Winner::Player(Tile::X)));
    assert_eq!(filled(&game), 9);
}

#[test]
fn parse_is_order_and_case_independent() {
    assert_eq!(Move::parse("1b"), Move::new(1, 1));
    assert_eq!(Move::parse("b1"), Move::new(1, 1));
    assert_eq!(Move::parse("B1"), Move::new(1, 1));
    assert_eq!(Move::parse("1B"), Move::new(1, 1));
    let m = Move::parse("2a").unwrap();
    assert_eq!((m.row(), m.col()), (0, 2));
}

#[test]
fn parse_names_every_position_once() {
    let letters = ['a', 'b', 'c'];
    let digits = ['0', '1', '2'];
    for (r, l) in letters.iter().enumerate() {
        for (c, d) in digits.iter().enumerate() {
            let token = format!("{}{}", l, d);
            let m = Move::parse(&token).unwrap();
            assert_eq!((m.row(), m.col()), (r, c));
        }
    }
}

#[test]
fn parse_rejects_bad_tokens() {
    assert_eq!(Move::parse("9z"), Err(MoveError::BadInput));
    assert_eq!(Move::parse("d1"), Err(MoveError::BadInput));
    assert_eq!(Move::parse("a3"), Err(MoveError::BadInput));
    assert_eq!(Move::parse("a"), Err(MoveError::BadInput));
    assert_eq!(Move::parse(""), Err(MoveError::BadInput));
    assert_eq!(Move::parse("a1 "), Err(MoveError::BadInput));
    assert_eq!(Move::parse("11"), Err(MoveError::BadInput));
    assert_eq!(Move::parse("ab"), Err(MoveError::BadInput));
    assert_eq!(Move::parse("é1"), Err(MoveError::BadInput));
    assert!(Move::from_str("zz").is_err());
}

#[test]
fn out_of_bounds_indices_are_refused() {
    assert_eq!(Move::new(3, 0), Err(MoveError::OutOfBounds));
    assert_eq!(Move::new(0, 3), Err(MoveError::OutOfBounds));
    assert_eq!(Move::try_from((5, 5)), Err(MoveError::OutOfBounds));
    let m = Move::new(2, 1).unwrap();
    assert_eq!((m.row(), m.col()), (2, 1));
}

#[test]
fn render_shows_marks_and_labels() {
    let mut game = Game::new();
    game.play(at(0, 0)).unwrap();
    game.play(at(1, 2)).unwrap();
    let text = render_board(&game);
    assert_eq!(text, "\n   0--1--2\nA  X  ~  ~ \nB  ~  ~  O \nC  ~  ~  ~ \n");
}

#[test]
fn messages() {
    assert_eq!(Winner::Player(Tile::O).message(), "O is the winner!");
    assert_eq!(Winner::Player(Tile::X).message(), "X won this game!");
    assert_eq!(Winner::Tie.message(), "no winner!");
    assert_eq!(GameError::PlaceFilled { x: 1, y: 12 }.message(), "The place 1, 12 is filled");
    assert_eq!(GameError::GameDone.message(), "Game is already done");
    assert_eq!(GameError::BoardFull.message(), "Board is full");
    assert_eq!(MoveError::BadInput.message(), "This is a bad input");
    assert_eq!(MoveError::OutOfBounds.message(), "This move is out of bounds");
    assert_eq!(Tile::X.symbol(), 'X');
    assert_eq!(Tile::O.symbol(), 'O');
}

#[test]
fn from_str_reads_tokens_like_parse() {
    assert_eq!(Move::from_str("C0"), Move::new(2, 0));
    assert_eq!(Move::from_str("0c"), Move::new(2, 0));
    assert_eq!(Move::from_str("b1"), Move::new(1, 1));
    assert_eq!(Move::from_str("9z"), Err(MoveError::BadInput));
    assert_eq!(Move::from_str("a12"), Err(MoveError::BadInput));
}

#[test]
fn winner_from_tile_is_that_players_win() {
    assert_eq!(Winner::from(Tile::X), Winner::Player(Tile::X));
    assert_eq!(Winner::from(Tile::O), Winner::Player(Tile::O));
}
