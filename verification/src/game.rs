//! The rules of play: whose turn it is, what a move does, and when the game
//! is over.

use vstd::prelude::*;
use crate::board::new;
use crate::board::play_token;
use crate::board::Board;
use crate::board::MoveError;
use crate::config::Config;
use crate::grid::Grid;
use crate::token::Cell;
use crate::token::Token;
use crate::win_checker::check_diagonal;
use crate::win_checker::check_horizontal;
use crate::win_checker::check_vertical;

verus! {

/// Where a game stands. `Won` and `Tie` are final.
#[derive(Clone, Copy, Debug, PartialEq, Eq, Structural)]
pub enum GameState {
    /// The game goes on, and the named player moves next.
    InProgress(Token),
    /// The named player has completed a run.
    Won(Token),
    /// The board is full and nobody has a run.
    Tie,
}

/// The state of a game once `mover`'s token has landed and the grid has
/// become `grid`: a run for the mover wins, else a full grid ties, else the
/// other player is next.
pub open spec fn state_after(grid: Grid, mover: Token) -> GameState {
    if grid.wins(mover) {
        GameState::Won(mover)
    } else if grid.is_full() {
        GameState::Tie
    } else {
        GameState::InProgress(mover.other())
    }
}

/// What a game is to its players: the grid and the state of play.
pub struct GameView {
    /// The cells.
    pub grid: Grid,
    /// Whose turn it is, or how the game ended.
    pub state: GameState,
}

impl GameView {
    /// The state tells the truth about the grid: a game in progress has room
    /// left and no run yet, a won game shows the winner's run, and a tied
    /// game is full without any run.
    pub open spec fn valid(self) -> bool {
        &&& self.grid.valid()
        &&& match self.state {
            GameState::InProgress(_) => {
                &&& !self.grid.is_full()
                &&& !self.grid.wins(Token::RED)
                &&& !self.grid.wins(Token::BLUE)
            },
            GameState::Won(winner) => self.grid.wins(winner),
            GameState::Tie => {
                &&& self.grid.is_full()
                &&& !self.grid.wins(Token::RED)
                &&& !self.grid.wins(Token::BLUE)
            },
        }
    }

    /// The game after the player to move has chosen column `chosen`, counted
    /// from 1: the token is dropped and the state follows from the new grid.
    /// A choice that the grid does not accept changes nothing, and neither
    /// does any choice once the game is over.
    pub open spec fn play(self, chosen: int) -> GameView {
        match self.state {
            GameState::InProgress(mover) if self.grid.accepts(chosen - 1) => {
                let grid = self.grid.drop_token(chosen - 1, mover);
                GameView { grid, state: state_after(grid, mover) }
            },
            _ => self,
        }
    }

    /// The state never comes to lie: whatever column is chosen, a valid game
    /// stays valid.
    pub proof fn lemma_play_keeps_valid(self, chosen: int)
        requires
            self.valid(),
        ensures
            self.play(chosen).valid(),
    {
        if let GameState::InProgress(mover) = self.state {
            let column = chosen - 1;
            if self.grid.accepts(column) {
                self.grid.lemma_drop_valid(column, mover);
                self.grid.lemma_rival_gains_nothing(
                    column,
                    self.grid.stack_height(column) as int,
                    mover,
                    mover.other(),
                );
            }
        }
    }

    /// Tie. A valid game whose grid is full and shows no run of either player
    /// is tied: it is not in progress, and no win is reported without a run.
    pub proof fn lemma_full_without_run_is_tie(self)
        requires
            self.valid(),
            self.grid.is_full(),
            !self.grid.wins(Token::RED),
            !self.grid.wins(Token::BLUE),
        ensures
            self.state == GameState::Tie,
    {
    }
}

/// One attempt of `token`'s player to move into the column `chosen_column`,
/// counted from 1 as players count: the token lands in the lowest empty cell
/// of that column, whose row and column (both counted from 0) are returned.
///
/// A number outside `1..=width` gives [`MoveError::InvalidColumn`], a column
/// without room [`MoveError::ColumnFull`]; the board is then unchanged and
/// the player chooses again.
pub fn take_turn(state: &mut Board, token: Token, chosen_column: usize) -> (moved: Result<
    (usize, usize),
    MoveError,
>)
    requires
        old(state).wf(),
    ensures
        final(state).wf(),
        final(state)@ == old(state)@.drop_token(chosen_column - 1, token),
        match moved {
            Ok((row, col)) => {
                &&& old(state)@.accepts(chosen_column - 1)
                &&& col == chosen_column - 1
                &&& row == old(state)@.stack_height(chosen_column - 1)
                &&& old(state)@.lowest_empty(col as int, row as int)
            },
            Err(MoveError::InvalidColumn) => {
                &&& !(1 <= chosen_column <= old(state)@.width)
                &&& *final(state) == *old(state)
            },
            Err(MoveError::ColumnFull) => {
                &&& 1 <= chosen_column <= old(state)@.width
                &&& old(state)@.column_full(chosen_column - 1)
                &&& *final(state) == *old(state)
            },
        },
{
    if 0 < chosen_column && chosen_column <= state.width() {
        play_token(token, chosen_column - 1, state)
    } else {
        Err(MoveError::InvalidColumn)
    }
}

/// Whether `player` holds a winning run in any of the four orientations.
pub fn check_win(state: &Board, player: Token) -> (won: bool)
    requires
        state.wf(),
    ensures
        won == state@.wins(player),
{
    check_vertical(state, player) || check_horizontal(state, player) || check_diagonal(
        state,
        player,
    )
}

/// Asking again gives the same answer: two results of [`check_win`] for the
/// same board and player are equal.
pub proof fn lemma_check_win_repeats(state: &Board, player: Token, first: bool, second: bool)
    requires
        call_ensures(check_win, (state, player), first),
        call_ensures(check_win, (state, player), second),
    ensures
        first == second,
{
}

/// A game: the board and the state of play, changed by moves alone.
pub struct Game {
    board: Board,
    state: GameState,
}

impl View for Game {
    type V = GameView;

    closed spec fn view(&self) -> GameView {
        GameView { grid: self.board@, state: self.state }
    }
}

impl Game {
    /// The board's storage matches its configuration.
    pub closed spec fn laid_out(&self) -> bool {
        self.board.laid_out()
    }

    /// The invariant of a game: the state tells the truth about the grid,
    /// and the board is well formed.
    pub open spec fn wf(&self) -> bool {
        &&& self@.valid()
        &&& self.laid_out()
    }

    /// A game on an empty board in which `first` moves first.
    pub fn new(config: Config, first: Token) -> (game: Game)
        requires
            config.valid(),
        ensures
            game.wf(),
            game@.state == GameState::InProgress(first),
            game@.grid.is_empty(),
            game@.grid.width == config.spec_width(),
            game@.grid.height == config.spec_height(),
            game@.grid.goal == config.spec_goal(),
    {
        let board = new(config);
        proof {
            board@.lemma_empty_has_no_run(Token::RED);
            board@.lemma_empty_has_no_run(Token::BLUE);
            assert(board@.at(0, 0) == Cell::EMPTY);
        }
        Game { board, state: GameState::InProgress(first) }
    }

    /// Where the game stands.
    pub fn state(&self) -> (state: GameState)
        ensures
            state == self@.state,
    {
        self.state
    }

    /// The board, to look at.
    pub fn board(&self) -> (board: &Board)
        ensures
            board@ == self@.grid,
            self.wf() ==> board.wf(),
    {
        &self.board
    }

    /// The player to move chooses the column `chosen_column`, counted from 1.
    ///
    /// If the board takes the token, its row and column (counted from 0) are
    /// returned and the game moves on: the mover has won if the token
    /// completed a run, the game is tied if the board is now full, and
    /// otherwise the other player is next. If the board refuses, the error
    /// says why and the game is exactly as before: the same player chooses
    /// again.
    pub fn play(&mut self, chosen_column: usize) -> (moved: Result<(usize, usize), MoveError>)
        requires
            old(self).wf(),
            old(self)@.state is InProgress,
        ensures
            final(self).wf(),
            final(self)@ == old(self)@.play(chosen_column as int),
            match moved {
                Ok((row, col)) => {
                    &&& old(self)@.grid.accepts(chosen_column - 1)
                    &&& col == chosen_column - 1
                    &&& row == old(self)@.grid.stack_height(chosen_column - 1)
                    &&& old(self)@.grid.lowest_empty(col as int, row as int)
                },
                Err(MoveError::InvalidColumn) => {
                    &&& !(1 <= chosen_column <= old(self)@.grid.width)
                    &&& *final(self) == *old(self)
                },
                Err(MoveError::ColumnFull) => {
                    &&& 1 <= chosen_column <= old(self)@.grid.width
                    &&& old(self)@.grid.column_full(chosen_column - 1)
                    &&& *final(self) == *old(self)
                },
            },
    {
        proof {
            old(self)@.lemma_play_keeps_valid(chosen_column as int);
        }
        match self.state {
            GameState::InProgress(mover) => {
                let moved = take_turn(&mut self.board, mover, chosen_column);
                if moved.is_ok() {
                    if check_win(&self.board, mover) {
                        self.state = GameState::Won(mover);
                    } else if self.board.is_full() {
                        self.state = GameState::Tie;
                    } else {
                        self.state = GameState::InProgress(mover.other());
                    }
                }
                moved
            },
            _ => vstd::pervasive::unreached(),
        }
    }
}

} // verus!
