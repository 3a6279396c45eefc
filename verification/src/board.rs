//! The board: the grid of cells in memory, and the gravity drop that is the
//! only way to change it.

use vstd::prelude::*;
use crate::config::Config;
use crate::grid::Grid;
use crate::token::Cell;
use crate::token::Token;

verus! {

/// Why a token could not be dropped. Both conditions leave the board as it
/// was, and the player may choose again.
#[derive(Clone, Copy, Debug, PartialEq, Eq, Structural)]
pub enum MoveError {
    /// The chosen column does not exist.
    InvalidColumn,
    /// The chosen column has no empty cell left.
    ColumnFull,
}

/// The cells of a game, stored row by row from the bottom: the cell at
/// `(column, row)` is entry `column + row * width`.
pub struct Board {
    config: Config,
    cells: Vec<Cell>,
}

impl View for Board {
    type V = Grid;

    /// The grid that the board holds.
    closed spec fn view(&self) -> Grid {
        Grid {
            width: self.config.spec_width() as nat,
            height: self.config.spec_height() as nat,
            goal: self.config.spec_goal() as nat,
            cells: Map::new(
                |p: (int, int)|
                    0 <= p.0 < self.config.spec_width() && 0 <= p.1 < self.config.spec_height(),
                |p: (int, int)| self.cells@[p.0 + p.1 * self.config.spec_width()],
            ),
        }
    }
}

/// Every position in bounds has an entry inside the storage.
proof fn lemma_entry_fits(width: int, height: int, col: int, row: int)
    by (nonlinear_arith)
    requires
        0 <= col < width,
        0 <= row < height,
    ensures
        0 <= row * width <= col + row * width < width * height,
{
    assert(row * width + width <= height * width);
}

/// Two positions in bounds with the same entry are one position.
proof fn lemma_entry_tells(width: int, col: int, row: int, c: int, r: int)
    by (nonlinear_arith)
    requires
        0 <= col < width,
        0 <= c < width,
        0 <= row,
        0 <= r,
        col + row * width == c + r * width,
    ensures
        col == c,
        row == r,
{
    if row < r {
        assert(row * width + width <= r * width);
    }
    if r < row {
        assert(r * width + width <= row * width);
    }
}

impl Board {
    /// The storage matches the configuration: one entry per cell.
    pub closed spec fn laid_out(&self) -> bool {
        &&& self.config.valid()
        &&& self.cells@.len() == self.config.spec_width() * self.config.spec_height()
    }

    /// The invariant of a board: its grid is valid, gravity included, and its
    /// storage matches its configuration.
    pub open spec fn wf(&self) -> bool {
        &&& self@.valid()
        &&& self.laid_out()
    }

    /// The dimensions and the run length of a board are machine integers,
    /// and a well-formed board has no more cells than a `usize` can count.
    pub proof fn lemma_fits(&self)
        ensures
            self@.width <= usize::MAX,
            self@.height <= usize::MAX,
            self@.goal <= usize::MAX,
            self.wf() ==> self@.width * self@.height <= usize::MAX,
    {
    }

    /// The configuration the board was made with.
    pub fn config(&self) -> (config: Config)
        ensures
            config.spec_width() == self@.width,
            config.spec_height() == self@.height,
            config.spec_goal() == self@.goal,
            self.wf() ==> config.valid(),
    {
        self.config
    }

    /// Number of columns.
    pub fn width(&self) -> (width: usize)
        ensures
            width == self@.width,
    {
        self.config.width()
    }

    /// Number of rows.
    pub fn height(&self) -> (height: usize)
        ensures
            height == self@.height,
    {
        self.config.height()
    }

    /// Length of a winning run.
    pub fn goal(&self) -> (goal: usize)
        ensures
            goal == self@.goal,
    {
        self.config.goal()
    }

    /// Where the cell at `(column, row)` is stored.
    fn entry(&self, column: usize, row: usize) -> (i: usize)
        requires
            self.laid_out(),
            column < self.config.spec_width(),
            row < self.config.spec_height(),
        ensures
            i == column + row * self.config.spec_width(),
            i < self.cells@.len(),
    {
        let width = self.config.width();
        proof {
            lemma_entry_fits(
                width as int,
                self.config.spec_height() as int,
                column as int,
                row as int,
            );
        }
        column + row * width
    }

    /// The cell at the given row and column, row 0 being the bottom.
    pub fn cell_at(&self, row: usize, column: usize) -> (cell: Cell)
        requires
            self.wf(),
            self@.in_bounds(column as int, row as int),
        ensures
            cell == self@.at(column as int, row as int),
    {
        let i = self.entry(column, row);
        self.cells[i]
    }

    /// Whether every cell holds a token. Thanks to gravity the top row
    /// decides.
    #[verifier::loop_isolation(false)]
    pub fn is_full(&self) -> (full: bool)
        requires
            self.wf(),
        ensures
            full == self@.is_full(),
    {
        let width = self.width();
        let top = self.height() - 1;
        for column in 0..width
            invariant
                forall|col: int| 0 <= col < column ==> self@.at(col, top as int) != Cell::EMPTY,
        {
            if self.cell_at(top, column) == Cell::EMPTY {
                return false;
            }
        }
        assert forall|col: int, row: int| self@.in_bounds(col, row) implies #[trigger] self@.at(
            col,
            row,
        ) != Cell::EMPTY by {
            assert(self@.at(col, top as int) != Cell::EMPTY);
        }
        true
    }
}

/// A board of the configured size with every cell empty.
pub fn new(config: Config) -> (board: Board)
    requires
        config.valid(),
    ensures
        board.wf(),
        board@.width == config.spec_width(),
        board@.height == config.spec_height(),
        board@.goal == config.spec_goal(),
        board@.is_empty(),
{
    let cells = vec![Cell::EMPTY; config.width() * config.height()];
    let board = Board { config, cells };
    assert forall|col: int, row: int| board@.in_bounds(col, row) implies #[trigger] board@.at(
        col,
        row,
    ) == Cell::EMPTY by {
        lemma_entry_fits(config.spec_width() as int, config.spec_height() as int, col, row);
    }
    board
}

/// Drops `token` into `column`: it lands in the lowest empty cell, whose row
/// and column are returned.
///
/// A column outside the board gives [`MoveError::InvalidColumn`], a column
/// without an empty cell [`MoveError::ColumnFull`]; either way the board is
/// left exactly as it was.
#[verifier::loop_isolation(false)]
pub fn play_token(token: Token, column: usize, map: &mut Board) -> (placed: Result<
    (usize, usize),
    MoveError,
>)
    requires
        old(map).wf(),
    ensures
        final(map).wf(),
        final(map)@ == old(map)@.drop_token(column as int, token),
        match placed {
            Ok((row, col)) => {
                &&& old(map)@.accepts(column as int)
                &&& col == column
                &&& row == old(map)@.stack_height(column as int)
                &&& old(map)@.lowest_empty(column as int, row as int)
            },
            Err(MoveError::InvalidColumn) => {
                &&& column >= old(map)@.width
                &&& *final(map) == *old(map)
            },
            Err(MoveError::ColumnFull) => {
                &&& column < old(map)@.width
                &&& old(map)@.column_full(column as int)
                &&& *final(map) == *old(map)
            },
        },
{
    if column >= map.width() {
        return Err(MoveError::InvalidColumn);
    }
    let height = map.height();
    proof {
        map@.lemma_stack(column as int);
    }
    for row in 0..height
        invariant
            *map == *old(map),
            forall|below: int| 0 <= below < row ==> map@.at(column as int, below) != Cell::EMPTY,
    {
        let i = map.entry(column, row);
        if map.cells[i] == Cell::EMPTY {
            map.cells.set(i, token.cell());
            proof {
                let before = old(map)@;
                let after = before.place(column as int, row as int, token.cell());
                assert(before.lowest_empty(column as int, row as int));
                assert forall|p: (int, int)| #[trigger]
                    map@.cells.dom().contains(p) implies map@.cells[p] == after.cells[p] by {
                    lemma_entry_fits(before.width as int, before.height as int, p.0, p.1);
                    if p.0 + p.1 * before.width == i {
                        lemma_entry_tells(
                            before.width as int,
                            p.0,
                            p.1,
                            column as int,
                            row as int,
                        );
                    }
                }
                assert(map@.cells =~= after.cells);
                before.lemma_drop_valid(column as int, token);
            }
            return Ok((row, column));
        }
    }
    Err(MoveError::ColumnFull)
}

} // verus!
