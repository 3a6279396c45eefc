use connect_four::board::MoveError;
use connect_four::config::Config;
use connect_four::game::check_win;
use connect_four::game::Game;
use connect_four::game::GameState;
use connect_four::Cell;
use connect_four::Token;

fn game_of(width: usize, height: usize, goal: usize, first: Token) -> Game {
    Game::new(Config::new(width, height, goal).unwrap(), first)
}

fn cells_of(game: &Game) -> Vec<Cell> {
    let board = game.board();
    let mut cells = Vec::new();
    for row in 0..board.height() {
        for column in 0..board.width() {
            cells.push(board.cell_at(row, column));
        }
    }
    cells
}

/// Plays the choices in turn and checks that the game stays in progress
/// until the last of them.
fn play_all(game: &mut Game, choices: &[usize]) {
    let mut mover = match game.state() {
        GameState::InProgress(mover) => mover,
        _ => panic!("the game is over"),
    };
    for (n, chosen) in choices.iter().enumerate() {
        assert_eq!(game.state(), GameState::InProgress(mover));
        assert!(game.play(*chosen).is_ok());
        if n + 1 < choices.len() {
            assert_eq!(game.state(), GameState::InProgress(mover.other()));
            assert!(!check_win(game.board(), Token::RED));
            assert!(!check_win(game.board(), Token::BLUE));
        }
        mover = mover.other();
    }
}

#[test]
fn new_game_waits_for_the_first_player() {
    let game = Game::new(Config::default(), Token::RED);
    assert_eq!(game.state(), GameState::InProgress(Token::RED));
    assert!(cells_of(&game).iter().all(|cell| *cell == Cell::EMPTY));
    assert_eq!(game.board().width(), 10);
    assert_eq!(game.board().height(), 6);
    let game = Game::new(Config::default(), Token::BLUE);
    assert_eq!(game.state(), GameState::InProgress(Token::BLUE));
}

#[test]
fn players_take_turns() {
    let mut game = Game::new(Config::default(), Token::RED);
    assert_eq!(game.play(4), Ok((0, 3)));
    assert_eq!(game.state(), GameState::InProgress(Token::BLUE));
    assert_eq!(game.play(4), Ok((1, 3)));
    assert_eq!(game.state(), GameState::InProgress(Token::RED));
    assert_eq!(game.play(1), Ok((0, 0)));
    assert_eq!(game.state(), GameState::InProgress(Token::BLUE));
    assert_eq!(game.board().cell_at(0, 3), Cell::RED);
    assert_eq!(game.board().cell_at(1, 3), Cell::BLUE);
    assert_eq!(game.board().cell_at(0, 0), Cell::RED);
}

#[test]
fn refused_choice_keeps_the_turn() {
    let mut game = game_of(3, 2, 3, Token::BLUE);
    assert_eq!(game.play(2), Ok((0, 1)));
    assert_eq!(game.play(2), Ok((1, 1)));
    let before = cells_of(&game);
    assert_eq!(game.state(), GameState::InProgress(Token::BLUE));
    assert_eq!(game.play(2), Err(MoveError::ColumnFull));
    assert_eq!(game.state(), GameState::InProgress(Token::BLUE));
    assert_eq!(game.play(0), Err(MoveError::InvalidColumn));
    assert_eq!(game.state(), GameState::InProgress(Token::BLUE));
    assert_eq!(game.play(4), Err(MoveError::InvalidColumn));
    assert_eq!(game.state(), GameState::InProgress(Token::BLUE));
    assert_eq!(cells_of(&game), before);
    assert_eq!(game.play(3), Ok((0, 2)));
    assert_eq!(game.state(), GameState::InProgress(Token::RED));
}

#[test]
fn fourth_token_in_a_column_wins() {
    let mut game = Game::new(Config::default(), Token::RED);
    play_all(&mut game, &[1, 2, 1, 2, 1, 2]);
    assert_eq!(game.state(), GameState::InProgress(Token::RED));
    assert_eq!(game.play(1), Ok((3, 0)));
    assert_eq!(game.state(), GameState::Won(Token::RED));
    assert!(check_win(game.board(), Token::RED));
    assert!(!check_win(game.board(), Token::BLUE));
}

#[test]
fn second_player_can_win() {
    let mut game = game_of(7, 6, 4, Token::RED);
    play_all(&mut game, &[1, 2, 1, 3, 1, 4, 7]);
    assert_eq!(game.state(), GameState::InProgress(Token::BLUE));
    assert_eq!(game.play(5), Ok((0, 4)));
    assert_eq!(game.state(), GameState::Won(Token::BLUE));
}

#[test]
fn diagonal_win_ends_the_game() {
    let mut game = game_of(7, 6, 4, Token::RED);
    play_all(&mut game, &[1, 2, 2, 3, 4, 3, 3, 4, 5, 4]);
    assert_eq!(game.state(), GameState::InProgress(Token::RED));
    assert_eq!(game.play(4), Ok((3, 3)));
    assert_eq!(game.state(), GameState::Won(Token::RED));
}

#[test]
fn win_with_the_last_cell_is_a_win() {
    let mut game = game_of(3, 1, 2, Token::RED);
    assert_eq!(game.play(1), Ok((0, 0)));
    assert_eq!(game.play(3), Ok((0, 2)));
    assert_eq!(game.state(), GameState::InProgress(Token::RED));
    assert_eq!(game.play(2), Ok((0, 1)));
    assert!(game.board().is_full());
    assert_eq!(game.state(), GameState::Won(Token::RED));
}

#[test]
fn full_standard_board_without_a_run_is_a_tie() {
    let choices = [
        6, 3, 9, 4, 10, 7, 4, 4, 5, 3, 3, 3, 4, 8, 5, 7, 7, 5, 7, 6, 5, 5, 1, 7, 3, 4, 2, 9, 3, 6,
        7, 5, 9, 1, 9, 4, 10, 10, 8, 9, 8, 1, 9, 2, 10, 6, 6, 6, 10, 1, 1, 10, 2, 8, 1, 8, 8, 2, 2,
        2,
    ];
    let mut game = Game::new(Config::default(), Token::RED);
    play_all(&mut game, &choices);
    assert_eq!(game.state(), GameState::Tie);
    assert!(game.board().is_full());
    assert!(!check_win(game.board(), Token::RED));
    assert!(!check_win(game.board(), Token::BLUE));
    let cells = cells_of(&game);
    assert_eq!(cells.iter().filter(|cell| **cell == Cell::RED).count(), 30);
    assert_eq!(cells.iter().filter(|cell| **cell == Cell::BLUE).count(), 30);
}

#[test]
fn full_seven_by_six_board_without_a_run_is_a_tie() {
    let choices = [
        6, 5, 6, 1, 7, 3, 5, 6, 6, 1, 5, 2, 2, 1, 5, 6, 7, 6, 4, 2, 2, 3, 3, 7, 3, 7, 7, 4, 7, 3,
        1, 4, 1, 4, 4, 5, 4, 2, 5, 3, 2, 1,
    ];
    let mut game = game_of(7, 6, 4, Token::BLUE);
    play_all(&mut game, &choices);
    assert_eq!(game.state(), GameState::Tie);
    assert!(game.board().is_full());
}

#[test]
fn small_tie() {
    let mut game = game_of(3, 1, 3, Token::RED);
    play_all(&mut game, &[1, 2, 3]);
    assert_eq!(game.state(), GameState::Tie);
    let mut game = game_of(4, 3, 3, Token::RED);
    play_all(&mut game, &[3, 2, 1, 4, 2, 1, 2, 4, 3, 1, 4, 3]);
    assert_eq!(game.state(), GameState::Tie);
}

#[test]
fn single_cell_game_is_won_at_once() {
    let mut game = game_of(1, 1, 1, Token::BLUE);
    assert_eq!(game.play(1), Ok((0, 0)));
    assert_eq!(game.state(), GameState::Won(Token::BLUE));
}

#[test]
fn same_choices_give_the_same_game() {
    let choices = [4, 4, 5, 3, 6, 7, 5, 5, 1, 10, 2, 9, 11, 0, 4];
    let mut first = Game::new(Config::default(), Token::RED);
    let mut second = Game::new(Config::default(), Token::RED);
    for chosen in choices {
        if first.state() != GameState::InProgress(Token::RED)
            && first.state() != GameState::InProgress(Token::BLUE)
        {
            break;
        }
        assert_eq!(first.play(chosen), second.play(chosen));
        assert_eq!(first.state(), second.state());
        assert_eq!(cells_of(&first), cells_of(&second));
    }
}
