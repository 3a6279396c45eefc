//! Win detection: does a player hold a run of the winning length?
//!
//! Every check walks whole lines of the grid with one shared scan. Rows and
//! columns are their own lines. A diagonal is named by the edge cell it starts
//! from: first the diagonals that start on the bottom edge, then those that
//! start on a side edge above the bottom row. Between them the two families
//! hold every diagonal long enough for a run exactly once, whatever the
//! proportions of the grid.

use vstd::prelude::*;
use crate::board::Board;
use crate::grid::Grid;
use crate::grid::Orientation;
use crate::token::Token;

verus! {

/// The line of `len` cells that starts at `(col, row)` and runs along `o` lies
/// inside the grid.
spec fn line_in_bounds(grid: Grid, o: Orientation, col: int, row: int, len: int) -> bool {
    forall|k: int|
        0 <= k < len ==> grid.in_bounds(#[trigger] o.col_at(col, k), #[trigger] o.row_at(row, k))
}

/// How many steps along `o` lead from `(col, row)` to `(c, r)`, if `(c, r)`
/// lies on that line at all.
spec fn steps_to(o: Orientation, col: int, row: int, c: int, r: int) -> int {
    match o {
        Orientation::Horizontal => c - col,
        _ => r - row,
    }
}

/// `(c, r)` is a cell of the line of `len` cells from `(col, row)` along `o`,
/// and as many cells of that line as make a run start there.
spec fn window_on_line(
    grid: Grid,
    o: Orientation,
    col: int,
    row: int,
    len: int,
    c: int,
    r: int,
) -> bool {
    let first = steps_to(o, col, row, c, r);
    &&& 0 <= first
    &&& first + grid.goal <= len
    &&& c == o.col_at(col, first)
    &&& r == o.row_at(row, first)
}

/// `token` has a winning run inside the line of `len` cells from `(col, row)`
/// along `o`.
spec fn wins_on_line(
    grid: Grid,
    token: Token,
    o: Orientation,
    col: int,
    row: int,
    len: int,
) -> bool {
    exists|c: int, r: int|
        window_on_line(grid, o, col, row, len, c, r) && #[trigger] grid.run_from(token, o, c, r)
}

/// Walks the line of `len` cells that starts at `(col, row)` and runs along
/// `o`, counting consecutive cells that hold `token`. Any other cell, empty or
/// not, sets the count back to zero. Reports a win as soon as the count
/// reaches the winning length.
#[verifier::loop_isolation(false)]
fn scan_line(
    map: &Board,
    token: Token,
    o: Orientation,
    col: usize,
    row: usize,
    len: usize,
) -> (found: bool)
    requires
        map.wf(),
        line_in_bounds(map@, o, col as int, row as int, len as int),
    ensures
        found == wins_on_line(map@, token, o, col as int, row as int, len as int),
{
    let goal = map.goal();
    let target = token.cell();
    let mut count: usize = 0;
    proof {
        map.lemma_fits();
    }
    for step in 0..len
        invariant
            count < goal,
            count <= step,
            // the last `count` cells hold the token, the one before them does not
            forall|k: int|
                step - count <= k < step ==> #[trigger] map@.run_cell(
                    token,
                    o,
                    col as int,
                    row as int,
                    k,
                ),
            count < step ==> !map@.run_cell(token, o, col as int, row as int, step - count - 1),
            // no run among the cells walked so far
            forall|c: int, r: int|
                window_on_line(map@, o, col as int, row as int, step as int, c, r)
                    ==> !#[trigger] map@.run_from(token, o, c, r),
    {
        proof {
            let k = step as int;
            assert(map@.in_bounds(o.col_at(col as int, k), o.row_at(row as int, k)));
        }
        let c = match o {
            Orientation::Horizontal => col + step,
            Orientation::Vertical => col,
            Orientation::Ascending => col + step,
            Orientation::Descending => col - step,
        };
        let r = match o {
            Orientation::Horizontal => row,
            _ => row + step,
        };
        let ghost streak = count as int;
        if map.cell_at(r, c) == target {
            count += 1;
        } else {
            count = 0;
        }
        if count >= goal {
            proof {
                let first = step + 1 - goal;
                let c0 = o.col_at(col as int, first);
                let r0 = o.row_at(row as int, first);
                assert forall|k: int| 0 <= k < goal implies #[trigger] map@.run_cell(
                    token,
                    o,
                    c0,
                    r0,
                    k,
                ) by {
                    assert(map@.run_cell(token, o, col as int, row as int, first + k));
                }
                assert(window_on_line(map@, o, col as int, row as int, len as int, c0, r0));
                assert(map@.run_from(token, o, c0, r0));
            }
            return true;
        }
        assert forall|c: int, r: int|
            window_on_line(map@, o, col as int, row as int, step + 1, c, r)
            implies !#[trigger] map@.run_from(token, o, c, r) by {
            // a run that ends with this cell would hold the cell that broke the count
            let first = steps_to(o, col as int, row as int, c, r);
            if first + goal == step + 1 && map@.run_from(token, o, c, r) {
                if count == 0 {
                    assert(map@.run_cell(token, o, c, r, goal - 1));
                } else {
                    assert(map@.run_cell(token, o, c, r, step - streak - 1 - first));
                }
            }
        }
    }
    false
}

/// Whether `turn` holds a winning run along a row.
#[verifier::loop_isolation(false)]
pub fn check_horizontal(map: &Board, turn: Token) -> (won: bool)
    requires
        map.wf(),
    ensures
        won == map@.wins_along(turn, Orientation::Horizontal),
{
    let width = map.width();
    let height = map.height();
    proof {
        map@.lemma_runs_in_bounds(turn, Orientation::Horizontal);
    }
    for row in 0..height
        invariant
            // a run lies in a row still to come
            forall|c: int, r: int| #[trigger]
                map@.run_from(turn, Orientation::Horizontal, c, r) ==> row <= r,
    {
        if scan_line(map, turn, Orientation::Horizontal, 0, row, width) {
            return true;
        }
    }
    false
}

/// Whether `turn` holds a winning run along a column.
#[verifier::loop_isolation(false)]
pub fn check_vertical(map: &Board, turn: Token) -> (won: bool)
    requires
        map.wf(),
    ensures
        won == map@.wins_along(turn, Orientation::Vertical),
{
    let width = map.width();
    let height = map.height();
    proof {
        map@.lemma_runs_in_bounds(turn, Orientation::Vertical);
    }
    for column in 0..width
        invariant
            // a run lies in a column still to come
            forall|c: int, r: int| #[trigger]
                map@.run_from(turn, Orientation::Vertical, c, r) ==> column <= c,
    {
        if scan_line(map, turn, Orientation::Vertical, column, 0, height) {
            return true;
        }
    }
    false
}

/// Whether `player` holds a winning run along a diagonal that rises from
/// left to right.
#[verifier::loop_isolation(false)]
pub fn check_upwards_diagonal(map: &Board, player: Token) -> (won: bool)
    requires
        map.wf(),
    ensures
        won == map@.wins_along(player, Orientation::Ascending),
{
    let width = map.width();
    let height = map.height();
    let goal = map.goal();
    proof {
        map@.lemma_runs_in_bounds(player, Orientation::Ascending);
    }
    if goal > width || goal > height {
        return false;
    }
    // Diagonals that start on the bottom edge, from the rightmost that is long
    // enough to the one in the corner.
    for diagonals in 0..width - goal + 1
        invariant
            // a run lies on a diagonal still to come
            forall|c: int, r: int| #[trigger]
                map@.run_from(player, Orientation::Ascending, c, r) ==> c - r <= width - goal
                    - diagonals,
    {
        let base_x = width - goal - diagonals;
        let len = (goal + diagonals).min(height);
        if scan_line(map, player, Orientation::Ascending, base_x, 0, len) {
            return true;
        }
    }
    // Diagonals that start on the left edge above the corner, from the topmost
    // that is long enough downwards.
    for diagonals in 0..height - goal
        invariant
            forall|c: int, r: int| #[trigger]
                map@.run_from(player, Orientation::Ascending, c, r) ==> 0 < r - c <= height - goal
                    - diagonals,
    {
        let base_y = height - goal - diagonals;
        let len = (goal + diagonals).min(width);
        if scan_line(map, player, Orientation::Ascending, 0, base_y, len) {
            return true;
        }
    }
    false
}

/// Whether `player` holds a winning run along a diagonal that falls from
/// left to right.
#[verifier::loop_isolation(false)]
pub fn check_downwards_diagonal(map: &Board, player: Token) -> (won: bool)
    requires
        map.wf(),
    ensures
        won == map@.wins_along(player, Orientation::Descending),
{
    let width = map.width();
    let height = map.height();
    let goal = map.goal();
    proof {
        map@.lemma_runs_in_bounds(player, Orientation::Descending);
    }
    if goal > width || goal > height {
        return false;
    }
    // Diagonals that start on the bottom edge, from the leftmost that is long
    // enough to the one in the corner.
    for diagonals in 0..width - goal + 1
        invariant
            // a run lies on a diagonal still to come
            forall|c: int, r: int| #[trigger]
                map@.run_from(player, Orientation::Descending, c, r) ==> goal - 1 + diagonals <= c
                    + r,
    {
        let base_x = goal - 1 + diagonals;
        let len = (goal + diagonals).min(height);
        if scan_line(map, player, Orientation::Descending, base_x, 0, len) {
            return true;
        }
    }
    // Diagonals that start on the right edge above the corner, from the
    // topmost that is long enough downwards.
    for diagonals in 0..height - goal
        invariant
            forall|c: int, r: int| #[trigger]
                map@.run_from(player, Orientation::Descending, c, r) ==> 0 < c + r - (width - 1)
                    <= height - goal - diagonals,
    {
        let base_x = width - 1;
        let base_y = height - goal - diagonals;
        let len = (goal + diagonals).min(width);
        if scan_line(map, player, Orientation::Descending, base_x, base_y, len) {
            return true;
        }
    }
    false
}

/// Whether `player` holds a winning run along a diagonal of either kind.
pub fn check_diagonal(map: &Board, player: Token) -> (won: bool)
    requires
        map.wf(),
    ensures
        won == (map@.wins_along(player, Orientation::Ascending) || map@.wins_along(
            player,
            Orientation::Descending,
        )),
{
    check_downwards_diagonal(map, player) || check_upwards_diagonal(map, player)
}

} // verus!
