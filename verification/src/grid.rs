//! The mathematical model of the playing field.
//!
//! A [`Grid`] is what contracts across the crate speak of: the dimensions, the
//! run length needed to win, and a cell for every position `(column, row)`,
//! row 0 being the bottom. Gravity, runs and the meaning of a drop are all
//! defined here, on unbounded integers, independently of how a board is laid
//! out in memory.

use vstd::prelude::*;
use crate::token::Cell;
use crate::token::Token;

verus! {

/// The direction of a line of cells. Every line is walked away from the
/// bottom row (or, for a horizontal line, away from the left column).
#[derive(Clone, Copy, Debug, PartialEq, Eq, Structural)]
pub enum Orientation {
    /// Left to right along a row.
    Horizontal,
    /// Upwards along a column.
    Vertical,
    /// Upwards and to the right.
    Ascending,
    /// Upwards and to the left: read from left to right, the line descends.
    Descending,
}

impl Orientation {
    /// The column reached after `k` steps from column `col`.
    pub open spec fn col_at(self, col: int, k: int) -> int {
        match self {
            Orientation::Horizontal => col + k,
            Orientation::Vertical => col,
            Orientation::Ascending => col + k,
            Orientation::Descending => col - k,
        }
    }

    /// The row reached after `k` steps from row `row`.
    pub open spec fn row_at(self, row: int, k: int) -> int {
        match self {
            Orientation::Horizontal => row,
            Orientation::Vertical => row + k,
            Orientation::Ascending => row + k,
            Orientation::Descending => row + k,
        }
    }
}

/// A grid of cells with the run length that wins on it.
pub struct Grid {
    /// Number of columns.
    pub width: nat,
    /// Number of rows.
    pub height: nat,
    /// Length of a winning run.
    pub goal: nat,
    /// The cell at each `(column, row)`.
    pub cells: Map<(int, int), Cell>,
}

impl Grid {
    /// `(col, row)` names a position of the grid.
    pub open spec fn in_bounds(self, col: int, row: int) -> bool {
        0 <= col < self.width && 0 <= row < self.height
    }

    /// The cell at `(col, row)`.
    pub open spec fn at(self, col: int, row: int) -> Cell {
        self.cells[(col, row)]
    }

    /// Gravity: below an occupied cell, every cell of the column is occupied.
    pub open spec fn settled(self) -> bool {
        forall|col: int, row: int, below: int|
            #![trigger self.at(col, row), self.at(col, below)]
            self.in_bounds(col, row) && 0 <= below < row && self.at(col, row) != Cell::EMPTY
                ==> self.at(col, below) != Cell::EMPTY
    }

    /// The grid has at least one cell, a run length that fits one of its
    /// dimensions, a cell for exactly the positions in bounds, and obeys
    /// gravity.
    pub open spec fn valid(self) -> bool {
        &&& 1 <= self.width
        &&& 1 <= self.height
        &&& 1 <= self.goal
        &&& (self.goal <= self.width || self.goal <= self.height)
        &&& forall|col: int, row: int| #[trigger]
            self.cells.dom().contains((col, row)) <==> self.in_bounds(col, row)
        &&& self.settled()
    }

    /// No token has been dropped yet.
    pub open spec fn is_empty(self) -> bool {
        forall|col: int, row: int|
            self.in_bounds(col, row) ==> #[trigger] self.at(col, row) == Cell::EMPTY
    }

    /// Every cell holds a token.
    pub open spec fn is_full(self) -> bool {
        forall|col: int, row: int|
            self.in_bounds(col, row) ==> #[trigger] self.at(col, row) != Cell::EMPTY
    }

    /// The number of tokens in column `col` among the rows below `top`.
    pub open spec fn tokens_below(self, col: int, top: int) -> nat
        decreases top,
    {
        if top <= 0 {
            0
        } else {
            let rest = self.tokens_below(col, top - 1);
            if self.at(col, top - 1) != Cell::EMPTY {
                rest + 1
            } else {
                rest
            }
        }
    }

    /// The number of tokens in column `col`. On a valid grid they fill the
    /// rows below this number, so it is also the row the next token lands in.
    pub open spec fn stack_height(self, col: int) -> nat {
        self.tokens_below(col, self.height as int)
    }

    /// Column `col` has no empty cell left.
    pub open spec fn column_full(self, col: int) -> bool {
        forall|row: int| 0 <= row < self.height ==> #[trigger] self.at(col, row) != Cell::EMPTY
    }

    /// `(col, row)` is the lowest empty cell of column `col`.
    pub open spec fn lowest_empty(self, col: int, row: int) -> bool {
        &&& self.in_bounds(col, row)
        &&& self.at(col, row) == Cell::EMPTY
        &&& forall|below: int| 0 <= below < row ==> #[trigger] self.at(col, below) != Cell::EMPTY
    }

    /// The grid with `(col, row)` set to `cell`.
    pub open spec fn place(self, col: int, row: int, cell: Cell) -> Grid {
        Grid { cells: self.cells.insert((col, row), cell), ..self }
    }

    /// A drop into `col` is possible: the column exists and has room.
    pub open spec fn accepts(self, col: int) -> bool {
        0 <= col < self.width && !self.column_full(col)
    }

    /// The grid after `token` is dropped into `col`: the token sits on top of
    /// the column's stack, which on a valid grid is the lowest empty cell. A
    /// drop that is not accepted leaves the grid as it is.
    pub open spec fn drop_token(self, col: int, token: Token) -> Grid {
        if self.accepts(col) {
            self.place(col, self.stack_height(col) as int, token.cell())
        } else {
            self
        }
    }

    /// The grid after the tokens of `tokens` are dropped into `col`, first to
    /// last.
    pub open spec fn drop_all(self, col: int, tokens: Seq<Token>) -> Grid
        decreases tokens.len(),
    {
        if tokens.len() == 0 {
            self
        } else {
            self.drop_all(col, tokens.drop_last()).drop_token(col, tokens.last())
        }
    }

    /// `(col, row)` is in bounds and holds `token`. An empty cell and a cell of
    /// the other player both fail this.
    pub open spec fn holds(self, token: Token, col: int, row: int) -> bool {
        self.in_bounds(col, row) && self.at(col, row) == token.cell()
    }

    /// The cell `k` steps from `(col, row)` along `o` holds `token`.
    pub open spec fn run_cell(
        self,
        token: Token,
        o: Orientation,
        col: int,
        row: int,
        k: int,
    ) -> bool {
        self.holds(token, o.col_at(col, k), o.row_at(row, k))
    }

    /// `goal` consecutive cells along `o`, the first at `(col, row)`, all hold
    /// `token`.
    pub open spec fn run_from(self, token: Token, o: Orientation, col: int, row: int) -> bool {
        forall|k: int| 0 <= k < self.goal ==> #[trigger] self.run_cell(token, o, col, row, k)
    }

    /// `token` has a winning run along some line of orientation `o`.
    pub open spec fn wins_along(self, token: Token, o: Orientation) -> bool {
        exists|col: int, row: int| #[trigger] self.run_from(token, o, col, row)
    }

    /// `token` has a winning run in one of the four orientations.
    pub open spec fn wins(self, token: Token) -> bool {
        ||| self.wins_along(token, Orientation::Horizontal)
        ||| self.wins_along(token, Orientation::Vertical)
        ||| self.wins_along(token, Orientation::Ascending)
        ||| self.wins_along(token, Orientation::Descending)
    }

    /// Every winning run starts and ends inside the grid.
    pub proof fn lemma_runs_in_bounds(self, token: Token, o: Orientation)
        requires
            self.valid(),
        ensures
            forall|col: int, row: int| #[trigger]
                self.run_from(token, o, col, row) ==> {
                    &&& self.in_bounds(col, row)
                    &&& self.in_bounds(o.col_at(col, self.goal - 1), o.row_at(row, self.goal - 1))
                },
    {
        assert forall|col: int, row: int| #[trigger] self.run_from(token, o, col, row) implies {
            &&& self.in_bounds(col, row)
            &&& self.in_bounds(o.col_at(col, self.goal - 1), o.row_at(row, self.goal - 1))
        } by {
            assert(self.run_cell(token, o, col, row, 0));
            assert(self.run_cell(token, o, col, row, self.goal - 1));
        }
    }

    /// The tokens of a column form a stack: a cell of the column is occupied
    /// exactly if its row is below the column's stack height. So the column is
    /// full when the stack is as high as the grid, and until then the lowest
    /// empty cell is the one at the stack height.
    pub proof fn lemma_stack(self, col: int)
        requires
            self.valid(),
            0 <= col < self.width,
        ensures
            self.stack_height(col) <= self.height,
            forall|row: int|
                0 <= row < self.height ==> (#[trigger] self.at(col, row) != Cell::EMPTY <==> row
                    < self.stack_height(col)),
            self.column_full(col) <==> self.stack_height(col) == self.height,
            forall|row: int| #[trigger]
                self.lowest_empty(col, row) <==> row == self.stack_height(col) < self.height,
    {
        self.lemma_stack_below(col, self.height as int);
        let top = self.stack_height(col) as int;
        if self.column_full(col) {
            assert(self.at(col, self.height - 1) != Cell::EMPTY);
        }
        assert forall|row: int| #[trigger] self.lowest_empty(col, row) implies row == top by {
            if row > 0 {
                assert(self.at(col, row - 1) != Cell::EMPTY);
            }
        }
    }

    proof fn lemma_stack_below(self, col: int, top: int)
        requires
            self.valid(),
            0 <= col < self.width,
            0 <= top <= self.height,
        ensures
            self.tokens_below(col, top) <= top,
            forall|row: int|
                0 <= row < top ==> (#[trigger] self.at(col, row) != Cell::EMPTY <==> row
                    < self.tokens_below(col, top)),
        decreases top,
    {
        if top > 0 {
            self.lemma_stack_below(col, top - 1);
            if self.at(col, top - 1) != Cell::EMPTY {
                if top - 1 > 0 {
                    assert(self.at(col, top - 2) != Cell::EMPTY);
                }
            }
        }
    }

    /// A drop keeps the grid valid: the token lands on top of its column's
    /// stack, so nothing comes to hang in the air.
    pub proof fn lemma_drop_valid(self, col: int, token: Token)
        requires
            self.valid(),
        ensures
            self.drop_token(col, token).valid(),
    {
        if self.accepts(col) {
            self.lemma_stack(col);
            let row = self.stack_height(col) as int;
            let after = self.place(col, row, token.cell());
            assert forall|c: int, r: int, below: int|
                after.in_bounds(c, r) && 0 <= below < r && after.at(c, r)
                    != Cell::EMPTY implies after.at(c, below) != Cell::EMPTY by {
                if c == col {
                    if r != row {
                        assert(self.at(c, r) != Cell::EMPTY);
                    }
                    assert(self.at(c, below) != Cell::EMPTY);
                } else {
                    assert(self.at(c, r) != Cell::EMPTY);
                    assert(self.at(c, below) != Cell::EMPTY);
                }
            }
        }
    }

    /// On an empty grid nobody has a run.
    pub proof fn lemma_empty_has_no_run(self, token: Token)
        requires
            self.valid(),
            self.is_empty(),
        ensures
            !self.wins(token),
    {
        assert forall|o: Orientation, col: int, row: int| !#[trigger] self.run_from(
            token,
            o,
            col,
            row,
        ) by {
            if self.run_from(token, o, col, row) {
                assert(self.run_cell(token, o, col, row, 0));
                assert(self.at(col, row) == Cell::EMPTY);
            }
        }
    }

    /// A token that lands gives the other player no run: whoever had none
    /// before has none after.
    pub proof fn lemma_rival_gains_nothing(self, col: int, row: int, token: Token, rival: Token)
        requires
            rival != token,
            !self.wins(rival),
        ensures
            !self.place(col, row, token.cell()).wins(rival),
    {
        let after = self.place(col, row, token.cell());
        assert forall|o: Orientation, c: int, r: int| !#[trigger] after.run_from(
            rival,
            o,
            c,
            r,
        ) by {
            if after.run_from(rival, o, c, r) {
                assert forall|k: int| 0 <= k < self.goal implies #[trigger] self.run_cell(
                    rival,
                    o,
                    c,
                    r,
                    k,
                ) by {
                    assert(after.run_cell(rival, o, c, r, k));
                }
                assert(self.run_from(rival, o, c, r));
                assert(self.wins_along(rival, o));
            }
        }
    }

    /// A token dropped into a column with room comes to lie on top of the
    /// column's stack, which is then one higher.
    pub proof fn lemma_drop_stacks(self, col: int, token: Token)
        requires
            self.valid(),
            self.accepts(col),
        ensures
            self.drop_token(col, token).at(col, self.stack_height(col) as int) == token.cell(),
            self.drop_token(col, token).stack_height(col) == self.stack_height(col) + 1,
    {
        let row = self.stack_height(col) as int;
        let after = self.drop_token(col, token);
        self.lemma_stack(col);
        self.lemma_drop_valid(col, token);
        after.lemma_stack(col);
        assert(after.at(col, row) != Cell::EMPTY);
        if row + 1 < self.height {
            assert(self.at(col, row + 1) == Cell::EMPTY);
            assert(after.at(col, row + 1) == Cell::EMPTY);
        }
    }

    /// Gravity. Tokens dropped into one column pile up from the stack that
    /// was there: each lands one row above the one before, until the column
    /// is full, and from then on nothing changes. In a column that was empty,
    /// the token of the k-th drop therefore lies in row k - 1.
    pub proof fn lemma_gravity(self, col: int, tokens: Seq<Token>)
        requires
            self.valid(),
            0 <= col < self.width,
        ensures
            self.drop_all(col, tokens).valid(),
            self.drop_all(col, tokens).width == self.width,
            self.drop_all(col, tokens).height == self.height,
            self.drop_all(col, tokens).goal == self.goal,
            self.drop_all(col, tokens).stack_height(col) == if self.stack_height(col)
                + tokens.len() <= self.height {
                self.stack_height(col) + tokens.len()
            } else {
                self.height
            },
            forall|row: int|
                self.stack_height(col) <= row < self.stack_height(col) + tokens.len() && row
                    < self.height ==> #[trigger] self.drop_all(col, tokens).at(col, row)
                    == tokens[row - self.stack_height(col)].cell(),
            forall|c: int, r: int|
                self.in_bounds(c, r) && !(c == col && self.stack_height(col) <= r
                    < self.stack_height(col) + tokens.len()) ==> #[trigger] self.drop_all(
                    col,
                    tokens,
                ).at(c, r) == self.at(c, r),
        decreases tokens.len(),
    {
        self.lemma_stack(col);
        if tokens.len() > 0 {
            let earlier = self.drop_all(col, tokens.drop_last());
            self.lemma_gravity(col, tokens.drop_last());
            earlier.lemma_stack(col);
            earlier.lemma_drop_valid(col, tokens.last());
            if earlier.accepts(col) {
                earlier.lemma_drop_stacks(col, tokens.last());
            }
            let after = self.drop_all(col, tokens);
            assert(after == earlier.drop_token(col, tokens.last()));
            assert forall|row: int|
                self.stack_height(col) <= row < self.stack_height(col) + tokens.len() && row
                    < self.height implies #[trigger] after.at(col, row) == tokens[row
                    - self.stack_height(col)].cell() by {
                if row < self.stack_height(col) + tokens.len() - 1 {
                    assert(earlier.at(col, row) == tokens.drop_last()[row - self.stack_height(
                        col,
                    )].cell());
                }
            }
            assert forall|c: int, r: int|
                self.in_bounds(c, r) && !(c == col && self.stack_height(col) <= r
                    < self.stack_height(col) + tokens.len()) implies #[trigger] after.at(c, r)
                == self.at(c, r) by {
                assert(earlier.at(c, r) == self.at(c, r));
            }
        }
    }

    /// Vertical win. On a grid that was empty, tokens of one player dropped
    /// into one column, no more than fit, make a winning run as soon as they
    /// are as many as the run is long, and not before.
    pub proof fn lemma_column_wins(self, col: int, token: Token, tokens: Seq<Token>)
        requires
            self.valid(),
            self.is_empty(),
            0 <= col < self.width,
            tokens.len() <= self.height,
            forall|i: int| 0 <= i < tokens.len() ==> tokens[i] == token,
        ensures
            self.drop_all(col, tokens).wins(token) <==> tokens.len() >= self.goal,
            self.drop_all(col, tokens).wins_along(token, Orientation::Vertical) <==> tokens.len()
                >= self.goal,
    {
        let after = self.drop_all(col, tokens);
        self.lemma_stack(col);
        assert(self.at(col, 0) == Cell::EMPTY);
        self.lemma_gravity(col, tokens);
        if tokens.len() >= self.goal {
            assert forall|k: int| 0 <= k < self.goal implies #[trigger] after.run_cell(
                token,
                Orientation::Vertical,
                col,
                0,
                k,
            ) by {
                assert(after.at(col, k) == tokens[k].cell());
            }
            assert(after.run_from(token, Orientation::Vertical, col, 0));
        } else {
            assert forall|o: Orientation, c: int, r: int| !#[trigger] after.run_from(
                token,
                o,
                c,
                r,
            ) by {
                if after.run_from(token, o, c, r) {
                    let last = self.goal - 1;
                    assert(after.run_cell(token, o, c, r, 0));
                    assert(after.run_cell(token, o, c, r, last));
                    assert(self.at(c, r) == Cell::EMPTY);
                    assert(self.at(o.col_at(c, last), o.row_at(r, last)) == Cell::EMPTY);
                }
            }
        }
    }

    /// Column full. After as many drops into a column as the grid has rows,
    /// the column is full: it accepts no further token, and a further drop
    /// leaves the grid as it is.
    pub proof fn lemma_column_fills(self, col: int, tokens: Seq<Token>, extra: Token)
        requires
            self.valid(),
            0 <= col < self.width,
            tokens.len() >= self.height,
        ensures
            self.drop_all(col, tokens).column_full(col),
            !self.drop_all(col, tokens).accepts(col),
            self.drop_all(col, tokens).drop_token(col, extra) == self.drop_all(col, tokens),
    {
        self.lemma_gravity(col, tokens);
        self.drop_all(col, tokens).lemma_stack(col);
    }
}

} // verus!
