use connect_four::board::new;
use connect_four::board::play_token;
use connect_four::board::Board;
use connect_four::board::MoveError;
use connect_four::config::Config;
use connect_four::constants::GOAL;
use connect_four::constants::HEIGHT;
use connect_four::constants::WIDTH;
use connect_four::game::take_turn;
use connect_four::Cell;
use connect_four::Token;

fn board_of(width: usize, height: usize, goal: usize) -> Board {
    new(Config::new(width, height, goal).unwrap())
}

fn snapshot(board: &Board) -> Vec<Cell> {
    let mut cells = Vec::new();
    for row in 0..board.height() {
        for column in 0..board.width() {
            cells.push(board.cell_at(row, column));
        }
    }
    cells
}

#[test]
fn standard_dimensions() {
    assert_eq!(WIDTH, 10);
    assert_eq!(HEIGHT, 6);
    assert_eq!(GOAL, 4);
    let config = Config::default();
    assert_eq!(config.width(), 10);
    assert_eq!(config.height(), 6);
    assert_eq!(config.goal(), 4);
}

#[test]
fn config_keeps_its_numbers() {
    let config = Config::new(7, 6, 4).unwrap();
    assert_eq!(config.width(), 7);
    assert_eq!(config.height(), 6);
    assert_eq!(config.goal(), 4);
}

#[test]
fn config_refuses_empty_dimensions() {
    assert!(Config::new(0, 6, 4).is_none());
    assert!(Config::new(7, 0, 4).is_none());
    assert!(Config::new(0, 0, 1).is_none());
}

#[test]
fn config_refuses_run_length_zero() {
    assert!(Config::new(7, 6, 0).is_none());
}

#[test]
fn config_refuses_run_longer_than_both_sides() {
    assert!(Config::new(7, 6, 8).is_none());
    assert!(Config::new(3, 3, 4).is_none());
    assert!(Config::new(1, 1, 2).is_none());
}

#[test]
fn config_accepts_run_as_long_as_the_longer_side() {
    assert!(Config::new(7, 6, 7).is_some());
    assert!(Config::new(6, 7, 7).is_some());
    assert!(Config::new(10, 3, 5).is_some());
    assert!(Config::new(1, 1, 1).is_some());
}

#[test]
fn config_refuses_more_cells_than_can_be_counted() {
    assert!(Config::new(usize::MAX, 2, 1).is_none());
    assert!(Config::new(2, usize::MAX, 1).is_none());
    assert!(Config::new(usize::MAX / 2 + 1, 2, 1).is_none());
}

#[test]
fn new_board_is_empty() {
    let board = new(Config::default());
    assert_eq!(board.width(), 10);
    assert_eq!(board.height(), 6);
    assert_eq!(board.goal(), 4);
    for row in 0..6 {
        for column in 0..10 {
            assert_eq!(board.cell_at(row, column), Cell::EMPTY);
        }
    }
    assert!(!board.is_full());
}

#[test]
fn board_remembers_its_configuration() {
    let board = board_of(5, 9, 3);
    let config = board.config();
    assert_eq!(config.width(), 5);
    assert_eq!(config.height(), 9);
    assert_eq!(config.goal(), 3);
}

#[test]
fn token_lands_at_the_bottom() {
    let mut board = new(Config::default());
    assert_eq!(play_token(Token::RED, 4, &mut board), Ok((0, 4)));
    assert_eq!(board.cell_at(0, 4), Cell::RED);
    assert_eq!(board.cell_at(1, 4), Cell::EMPTY);
    assert_eq!(board.cell_at(0, 3), Cell::EMPTY);
    assert_eq!(board.cell_at(0, 5), Cell::EMPTY);
}

#[test]
fn drops_pile_up_row_by_row() {
    let mut board = new(Config::default());
    for k in 1..=6 {
        let token = if k % 2 == 1 { Token::RED } else { Token::BLUE };
        assert_eq!(play_token(token, 2, &mut board), Ok((k - 1, 2)));
        assert_eq!(board.cell_at(k - 1, 2), token.cell());
    }
    for row in 0..6 {
        let expected = if row % 2 == 0 { Cell::RED } else { Cell::BLUE };
        assert_eq!(board.cell_at(row, 2), expected);
    }
}

#[test]
fn drops_pile_up_on_a_tall_narrow_board() {
    let mut board = board_of(2, 9, 3);
    for k in 0..9 {
        assert_eq!(play_token(Token::BLUE, 1, &mut board), Ok((k, 1)));
    }
    for k in 0..9 {
        assert_eq!(board.cell_at(k, 1), Cell::BLUE);
        assert_eq!(board.cell_at(k, 0), Cell::EMPTY);
    }
}

#[test]
fn columns_do_not_disturb_each_other() {
    let mut board = new(Config::default());
    assert_eq!(play_token(Token::RED, 0, &mut board), Ok((0, 0)));
    assert_eq!(play_token(Token::BLUE, 9, &mut board), Ok((0, 9)));
    assert_eq!(play_token(Token::RED, 0, &mut board), Ok((1, 0)));
    assert_eq!(play_token(Token::BLUE, 5, &mut board), Ok((0, 5)));
    assert_eq!(play_token(Token::RED, 9, &mut board), Ok((1, 9)));
    assert_eq!(board.cell_at(0, 0), Cell::RED);
    assert_eq!(board.cell_at(1, 0), Cell::RED);
    assert_eq!(board.cell_at(0, 9), Cell::BLUE);
    assert_eq!(board.cell_at(1, 9), Cell::RED);
    assert_eq!(board.cell_at(0, 5), Cell::BLUE);
    assert_eq!(board.cell_at(2, 0), Cell::EMPTY);
}

#[test]
fn full_column_refuses_and_board_is_unchanged() {
    let mut board = new(Config::default());
    for _ in 0..6 {
        assert!(play_token(Token::RED, 7, &mut board).is_ok());
    }
    let before = snapshot(&board);
    assert_eq!(play_token(Token::BLUE, 7, &mut board), Err(MoveError::ColumnFull));
    assert_eq!(snapshot(&board), before);
    assert_eq!(play_token(Token::RED, 7, &mut board), Err(MoveError::ColumnFull));
    assert_eq!(snapshot(&board), before);
    assert_eq!(play_token(Token::BLUE, 6, &mut board), Ok((0, 6)));
}

#[test]
fn column_past_the_right_edge_is_invalid() {
    let mut board = new(Config::default());
    assert!(play_token(Token::RED, 3, &mut board).is_ok());
    let before = snapshot(&board);
    assert_eq!(play_token(Token::BLUE, 10, &mut board), Err(MoveError::InvalidColumn));
    assert_eq!(snapshot(&board), before);
    assert_eq!(play_token(Token::BLUE, 11, &mut board), Err(MoveError::InvalidColumn));
    assert_eq!(play_token(Token::BLUE, usize::MAX, &mut board), Err(MoveError::InvalidColumn));
    assert_eq!(snapshot(&board), before);
}

#[test]
fn invalid_column_is_reported_even_when_the_board_is_full() {
    let mut board = board_of(2, 1, 2);
    assert!(play_token(Token::RED, 0, &mut board).is_ok());
    assert!(play_token(Token::BLUE, 1, &mut board).is_ok());
    assert_eq!(play_token(Token::RED, 2, &mut board), Err(MoveError::InvalidColumn));
    assert_eq!(play_token(Token::RED, 1, &mut board), Err(MoveError::ColumnFull));
}

#[test]
fn players_count_columns_from_one() {
    let mut board = new(Config::default());
    assert_eq!(take_turn(&mut board, Token::RED, 1), Ok((0, 0)));
    assert_eq!(take_turn(&mut board, Token::BLUE, 10), Ok((0, 9)));
    assert_eq!(take_turn(&mut board, Token::RED, 1), Ok((1, 0)));
    assert_eq!(board.cell_at(0, 0), Cell::RED);
    assert_eq!(board.cell_at(1, 0), Cell::RED);
    assert_eq!(board.cell_at(0, 9), Cell::BLUE);
}

#[test]
fn choice_before_the_first_column_is_invalid() {
    let mut board = new(Config::default());
    assert!(take_turn(&mut board, Token::RED, 1).is_ok());
    let before = snapshot(&board);
    assert_eq!(take_turn(&mut board, Token::BLUE, 0), Err(MoveError::InvalidColumn));
    assert_eq!(snapshot(&board), before);
}

#[test]
fn choice_after_the_last_column_is_invalid() {
    let mut board = new(Config::default());
    assert!(take_turn(&mut board, Token::RED, 10).is_ok());
    let before = snapshot(&board);
    assert_eq!(take_turn(&mut board, Token::BLUE, 11), Err(MoveError::InvalidColumn));
    assert_eq!(take_turn(&mut board, Token::BLUE, usize::MAX), Err(MoveError::InvalidColumn));
    assert_eq!(snapshot(&board), before);
}

#[test]
fn chosen_full_column_is_refused() {
    let mut board = board_of(3, 2, 2);
    assert_eq!(take_turn(&mut board, Token::RED, 2), Ok((0, 1)));
    assert_eq!(take_turn(&mut board, Token::BLUE, 2), Ok((1, 1)));
    let before = snapshot(&board);
    assert_eq!(take_turn(&mut board, Token::RED, 2), Err(MoveError::ColumnFull));
    assert_eq!(snapshot(&board), before);
}

#[test]
fn board_is_full_only_when_every_cell_is_taken() {
    let mut board = board_of(3, 2, 3);
    let order = [0, 1, 2, 0, 1];
    for (n, column) in order.iter().enumerate() {
        assert!(!board.is_full());
        let token = if n % 2 == 0 { Token::RED } else { Token::BLUE };
        assert!(play_token(token, *column, &mut board).is_ok());
    }
    assert!(!board.is_full());
    assert!(play_token(Token::BLUE, 2, &mut board).is_ok());
    assert!(board.is_full());
}

#[test]
fn one_full_column_does_not_fill_the_board() {
    let mut board = board_of(2, 3, 3);
    for _ in 0..3 {
        assert!(play_token(Token::RED, 1, &mut board).is_ok());
    }
    assert!(!board.is_full());
    for _ in 0..3 {
        assert!(play_token(Token::BLUE, 0, &mut board).is_ok());
    }
    assert!(board.is_full());
}

#[test]
fn single_cell_board() {
    let mut board = board_of(1, 1, 1);
    assert!(!board.is_full());
    assert_eq!(play_token(Token::BLUE, 0, &mut board), Ok((0, 0)));
    assert!(board.is_full());
    assert_eq!(play_token(Token::RED, 0, &mut board), Err(MoveError::ColumnFull));
    assert_eq!(board.cell_at(0, 0), Cell::BLUE);
}

#[test]
fn tokens_and_cells() {
    assert_eq!(Token::RED.cell(), Cell::RED);
    assert_eq!(Token::BLUE.cell(), Cell::BLUE);
    assert_ne!(Token::RED.cell(), Cell::EMPTY);
    assert_ne!(Token::BLUE.cell(), Cell::EMPTY);
    assert_eq!(Token::RED.other(), Token::BLUE);
    assert_eq!(Token::BLUE.other(), Token::RED);
}

#[test]
fn players_have_names() {
    assert_eq!(Token::RED.name(), "Red");
    assert_eq!(Token::BLUE.name(), "Blue");
}
