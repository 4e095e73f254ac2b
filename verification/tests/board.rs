use tic_tac_toe::board::{GameBoard, PlacementError};
use tic_tac_toe::grid::Outcome;
use tic_tac_toe::token::{Player, Token};

fn board_after(moves: &[(usize, usize, Player)]) -> GameBoard {
    let mut board = GameBoard::new();
    for &(x, y, player) in moves {
        assert_eq!(board.place(x, y, player), Ok(()));
    }
    board
}

#[test]
fn fresh_board_is_in_progress() {
    let board = GameBoard::new();
    assert_eq!(board.evaluate(), Outcome::InProgress);
    assert_eq!(GameBoard::new().evaluate(), Outcome::InProgress);
}

#[test]
fn fresh_board_is_blank() {
    let board = GameBoard::new();
    assert_eq!(board.render(), vec![" "; 9]);
}

#[test]
fn fresh_boards_are_equal() {
    assert_eq!(GameBoard::new(), GameBoard::new());
}

#[test]
fn place_out_of_bounds_is_refused_and_changes_nothing() {
    let coordinates = [0usize, 1, 2, 3, 4, 9, 255, usize::MAX];
    for start in [GameBoard::new(), board_after(&[(1, 1, Player::X), (0, 2, Player::O)])] {
        for &x in &coordinates {
            for &y in &coordinates {
                if x <= 2 && y <= 2 {
                    continue;
                }
                for player in [Player::X, Player::O] {
                    let mut board = start;
                    assert_eq!(board.place(x, y, player), Err(PlacementError::OutOfBounds));
                    assert_eq!(board, start);
                    assert_eq!(board.render(), start.render());
                }
            }
        }
    }
}

#[test]
fn place_on_taken_square_is_refused_and_changes_nothing() {
    for x in 0..3 {
        for y in 0..3 {
            for first in [Player::X, Player::O] {
                let start = board_after(&[(x, y, first)]);
                for second in [Player::X, Player::O] {
                    let mut board = start;
                    assert_eq!(board.place(x, y, second), Err(PlacementError::CellOccupied));
                    assert_eq!(board, start);
                    assert_eq!(board.render(), start.render());
                }
            }
        }
    }
}

#[test]
fn place_on_blank_square_sets_that_square_only() {
    for x in 0..3 {
        for y in 0..3 {
            let mut board = board_after(&[(x, y, Player::O)]);
            let mut expected = vec![" "; 9];
            expected[3 * y + x] = "O";
            assert_eq!(board.render(), expected);
            let (nx, ny) = ((x + 1) % 3, (y + 2) % 3);
            assert_eq!(board.place(nx, ny, Player::X), Ok(()));
            expected[3 * ny + nx] = "X";
            assert_eq!(board.render(), expected);
        }
    }
}

#[test]
fn evaluate_twice_gives_the_same_outcome() {
    let boards = [
        GameBoard::new(),
        board_after(&[(0, 0, Player::X)]),
        board_after(&[(0, 0, Player::X), (0, 1, Player::X), (0, 2, Player::X)]),
        board_after(&[(2, 0, Player::O), (1, 1, Player::O), (0, 2, Player::O)]),
    ];
    for board in boards {
        let before = board;
        let first = board.evaluate();
        let second = board.evaluate();
        assert_eq!(first, second);
        assert_eq!(board, before);
    }
}

#[test]
fn scenario_left_column_win() {
    let mut board = GameBoard::new();
    assert_eq!(board.place(0, 0, Player::X), Ok(()));
    assert_eq!(board.evaluate(), Outcome::InProgress);
    assert_eq!(board.place(1, 1, Player::O), Ok(()));
    assert_eq!(board.evaluate(), Outcome::InProgress);
    assert_eq!(board.place(0, 1, Player::X), Ok(()));
    assert_eq!(board.evaluate(), Outcome::InProgress);
    assert_eq!(board.place(1, 0, Player::O), Ok(()));
    assert_eq!(board.evaluate(), Outcome::InProgress);
    assert_eq!(board.place(0, 2, Player::X), Ok(()));
    assert_eq!(board.evaluate(), Outcome::Win(Player::X));
}

#[test]
fn scenario_full_board_without_a_line_is_a_draw() {
    let xs = [(0, 0), (2, 0), (0, 1), (1, 2), (2, 2)];
    let os = [(1, 0), (1, 1), (2, 1), (0, 2)];
    let mut board = GameBoard::new();
    for turn in 0..9 {
        assert_eq!(board.evaluate(), Outcome::InProgress);
        if turn % 2 == 0 {
            let (x, y) = xs[turn / 2];
            assert_eq!(board.place(x, y, Player::X), Ok(()));
        } else {
            let (x, y) = os[turn / 2];
            assert_eq!(board.place(x, y, Player::O), Ok(()));
        }
    }
    assert_eq!(board.render(), vec!["X", "O", "X", "X", "O", "O", "O", "X", "X"]);
    assert_eq!(board.evaluate(), Outcome::Draw);
}

#[test]
fn full_board_with_the_diagonal_completed_last_is_a_win() {
    let xs = [(0, 0), (0, 1), (1, 1), (2, 0), (2, 2)];
    let os = [(1, 0), (0, 2), (1, 2), (2, 1)];
    let mut board = GameBoard::new();
    for turn in 0..9 {
        assert_eq!(board.evaluate(), Outcome::InProgress);
        if turn % 2 == 0 {
            let (x, y) = xs[turn / 2];
            assert_eq!(board.place(x, y, Player::X), Ok(()));
        } else {
            let (x, y) = os[turn / 2];
            assert_eq!(board.place(x, y, Player::O), Ok(()));
        }
    }
    assert_eq!(board.render(), vec!["X", "O", "X", "X", "X", "O", "O", "O", "X"]);
    assert_eq!(board.evaluate(), Outcome::Win(Player::X));
}

#[test]
fn scenario_errors() {
    let mut board = GameBoard::new();
    assert_eq!(board.place(3, 0, Player::X), Err(PlacementError::OutOfBounds));
    assert_eq!(board, GameBoard::new());
    assert_eq!(board.place(0, 0, Player::X), Ok(()));
    let after_first = board;
    assert_eq!(board.place(0, 0, Player::O), Err(PlacementError::CellOccupied));
    assert_eq!(board, after_first);
    assert_eq!(board.render()[0], "X");
}

#[test]
fn scenario_diagonal_win() {
    let board = board_after(&[
        (0, 0, Player::X),
        (0, 1, Player::O),
        (1, 1, Player::X),
        (0, 2, Player::O),
        (2, 2, Player::X),
    ]);
    assert_eq!(board.evaluate(), Outcome::Win(Player::X));
}

#[test]
fn every_line_wins_for_either_player() {
    let lines: [[(usize, usize); 3]; 8] = [
        [(0, 0), (1, 0), (2, 0)],
        [(0, 1), (1, 1), (2, 1)],
        [(0, 2), (1, 2), (2, 2)],
        [(0, 0), (0, 1), (0, 2)],
        [(1, 0), (1, 1), (1, 2)],
        [(2, 0), (2, 1), (2, 2)],
        [(0, 0), (1, 1), (2, 2)],
        [(0, 2), (1, 1), (2, 0)],
    ];
    for line in lines {
        for player in [Player::X, Player::O] {
            let mut board = GameBoard::new();
            for (count, &(x, y)) in line.iter().enumerate() {
                assert_eq!(board.evaluate(), Outcome::InProgress, "after {} of {:?}", count, line);
                assert_eq!(board.place(x, y, player), Ok(()));
            }
            assert_eq!(board.evaluate(), Outcome::Win(player), "line {:?}", line);
        }
    }
}

#[test]
fn two_squares_of_a_line_do_not_win() {
    let board = board_after(&[(0, 0, Player::X), (1, 0, Player::X), (2, 0, Player::O)]);
    assert_eq!(board.evaluate(), Outcome::InProgress);
    let board = board_after(&[(0, 0, Player::O), (1, 1, Player::O), (2, 2, Player::X)]);
    assert_eq!(board.evaluate(), Outcome::InProgress);
}

#[test]
fn win_on_a_full_board_is_not_a_draw() {
    let board = board_after(&[
        (0, 0, Player::X),
        (1, 0, Player::O),
        (1, 1, Player::X),
        (2, 0, Player::O),
        (0, 1, Player::X),
        (2, 1, Player::O),
        (1, 2, Player::X),
        (0, 2, Player::O),
        (2, 2, Player::X),
    ]);
    assert!(board.render().iter().all(|glyph| *glyph != " "));
    assert_eq!(board.evaluate(), Outcome::Win(Player::X));
}

#[test]
fn last_blank_square_keeps_the_game_in_progress() {
    let mut board = board_after(&[
        (0, 0, Player::X),
        (1, 0, Player::O),
        (2, 0, Player::X),
        (1, 1, Player::O),
        (0, 1, Player::X),
        (2, 1, Player::O),
        (1, 2, Player::X),
        (0, 2, Player::O),
    ]);
    assert_eq!(board.render(), vec!["X", "O", "X", "X", "O", "O", "O", "X", " "]);
    assert_eq!(board.evaluate(), Outcome::InProgress);
    assert_eq!(board.place(2, 2, Player::X), Ok(()));
    assert_eq!(board.evaluate(), Outcome::Draw);
}

#[test]
fn with_two_owned_columns_the_left_one_decides() {
    let board = board_after(&[
        (1, 0, Player::X),
        (1, 1, Player::X),
        (1, 2, Player::X),
        (0, 0, Player::O),
        (0, 1, Player::O),
        (0, 2, Player::O),
    ]);
    assert_eq!(board.evaluate(), Outcome::Win(Player::O));
    let board = board_after(&[
        (2, 0, Player::O),
        (2, 1, Player::O),
        (2, 2, Player::O),
        (1, 0, Player::X),
        (1, 1, Player::X),
        (1, 2, Player::X),
    ]);
    assert_eq!(board.evaluate(), Outcome::Win(Player::X));
}

#[test]
fn with_two_owned_rows_the_upper_one_decides() {
    let board = board_after(&[
        (0, 2, Player::X),
        (1, 2, Player::X),
        (2, 2, Player::X),
        (0, 1, Player::O),
        (1, 1, Player::O),
        (2, 1, Player::O),
    ]);
    assert_eq!(board.evaluate(), Outcome::Win(Player::O));
    let board = board_after(&[
        (0, 0, Player::X),
        (1, 0, Player::X),
        (2, 0, Player::X),
        (0, 2, Player::O),
        (1, 2, Player::O),
        (2, 2, Player::O),
    ]);
    assert_eq!(board.evaluate(), Outcome::Win(Player::X));
}

#[test]
fn board_does_not_enforce_turn_order() {
    let mut board = GameBoard::new();
    assert_eq!(board.place(0, 0, Player::X), Ok(()));
    assert_eq!(board.place(1, 0, Player::X), Ok(()));
    assert_eq!(board.place(2, 0, Player::X), Ok(()));
    assert_eq!(board.evaluate(), Outcome::Win(Player::X));
    assert_eq!(board.place(1, 1, Player::O), Ok(()));
}

#[test]
fn mark_says_whether_the_token_was_placed() {
    let mut board = GameBoard::new();
    assert!(board.mark(1, 2, Token::X));
    assert_eq!(board.render()[7], "X");
    let after_first = board;
    assert!(!board.mark(1, 2, Token::O));
    assert!(!board.mark(1, 2, Token::X));
    assert!(!board.mark(3, 0, Token::O));
    assert!(!board.mark(0, 3, Token::O));
    assert!(!board.mark(usize::MAX, usize::MAX, Token::X));
    assert_eq!(board, after_first);
    assert!(board.mark(2, 2, Token::O));
    assert_eq!(board.render()[8], "O");
    assert_eq!(board.render()[7], "X");
}

#[test]
fn mark_and_place_agree() {
    for x in 0..5 {
        for y in 0..5 {
            let mut marked = GameBoard::new();
            let mut placed = GameBoard::new();
            assert!(marked.mark(1, 1, Token::O));
            assert_eq!(placed.place(1, 1, Player::O), Ok(()));
            assert_eq!(marked.mark(x, y, Token::X), placed.place(x, y, Player::X).is_ok());
            assert_eq!(marked, placed);
        }
    }
}

#[test]
fn token_to_str_gives_the_glyphs() {
    let board = GameBoard::new();
    assert_eq!(board.tokenToStr(Token::X), "X");
    assert_eq!(board.tokenToStr(Token::O), "O");
    assert_eq!(board.tokenToStr(Token::Blank), " ");
}

#[test]
fn render_goes_row_by_row() {
    let board = board_after(&[(1, 0, Player::X), (0, 2, Player::O), (2, 1, Player::X)]);
    assert_eq!(board.render(), vec![" ", "X", " ", " ", " ", "X", "O", " ", " "]);
}

#[test]
fn table_lists_rows_then_columns_then_diagonals() {
    let expected: [[(usize, usize); 3]; 8] = [
        [(0, 0), (1, 0), (2, 0)],
        [(0, 1), (1, 1), (2, 1)],
        [(0, 2), (1, 2), (2, 2)],
        [(0, 0), (0, 1), (0, 2)],
        [(1, 0), (1, 1), (1, 2)],
        [(2, 0), (2, 1), (2, 2)],
        [(0, 0), (1, 1), (2, 2)],
        [(0, 2), (1, 1), (2, 0)],
    ];
    let board = GameBoard::new();
    let table = board.patterns();
    assert_eq!(table.len(), 8);
    for k in 0..8 {
        for x in 0..4 {
            for y in 0..4 {
                assert_eq!(
                    table[k].covers(x, y),
                    expected[k].contains(&(x, y)),
                    "line {} square ({}, {})",
                    k,
                    x,
                    y
                );
            }
        }
    }
}

#[test]
fn table_does_not_change_with_the_board() {
    let fresh = GameBoard::new();
    let played = board_after(&[(0, 0, Player::X), (1, 1, Player::O)]);
    assert_eq!(fresh.patterns(), played.patterns());
}

#[test]
fn players_and_tokens() {
    assert_eq!(Player::X.token(), Token::X);
    assert_eq!(Player::O.token(), Token::O);
    assert_eq!(Player::X.other(), Player::O);
    assert_eq!(Player::O.other(), Player::X);
}
