//! The board as text, framed with box-drawing characters, top row first.

use vstd::prelude::*;
use crate::board::Board;
use crate::grid::Grid;
use crate::token::Cell;

verus! {

/// A horizontal stroke of the frame.
pub const BAR: char = '\u{2501}';

/// A vertical stroke of the frame.
pub const POST: char = '\u{2503}';

/// The disc of the red player.
pub const RED_DISC: char = '\u{1F534}';

/// The disc of the blue player.
pub const BLUE_DISC: char = '\u{1F535}';

/// The strokes of a horizontal rule over `columns` columns: three bars for
/// each column, and `joint` between neighbours.
pub open spec fn strokes(joint: char, columns: int) -> Seq<char>
    decreases columns,
{
    if columns <= 0 {
        Seq::empty()
    } else if columns == 1 {
        seq![BAR, BAR, BAR]
    } else {
        strokes(joint, columns - 1) + seq![joint, BAR, BAR, BAR]
    }
}

/// A horizontal rule of the frame, from its `left` corner to its `right`
/// one, and the line break after it.
pub open spec fn rule(left: char, joint: char, right: char, columns: int) -> Seq<char> {
    seq![left] + strokes(joint, columns) + seq![right, '\n']
}

/// How a cell is drawn. A disc is twice as wide as a space.
pub open spec fn disc(cell: Cell) -> Seq<char> {
    match cell {
        Cell::RED => seq![RED_DISC],
        Cell::BLUE => seq![BLUE_DISC],
        Cell::EMPTY => seq![' ', ' '],
    }
}

/// The first `columns` cells of row `row`, each followed by a space and a
/// post.
pub open spec fn cells(grid: Grid, row: int, columns: int) -> Seq<char>
    decreases columns,
{
    if columns <= 0 {
        Seq::empty()
    } else {
        cells(grid, row, columns - 1) + disc(grid.at(columns - 1, row)) + seq![' ', POST]
    }
}

/// The line of row `row`: a post, the cells, a line break.
pub open spec fn line(grid: Grid, row: int) -> Seq<char> {
    seq![POST] + cells(grid, row, grid.width as int) + seq!['\n']
}

/// The lines of the rows from the top down to row `bottom`, with a rule
/// between one row and the next.
pub open spec fn lines(grid: Grid, bottom: int) -> Seq<char>
    decreases grid.height - bottom,
{
    if bottom >= grid.height {
        Seq::empty()
    } else if bottom == grid.height - 1 {
        line(grid, bottom)
    } else {
        lines(grid, bottom + 1) + rule('\u{2523}', '\u{254B}', '\u{252B}', grid.width as int)
            + line(grid, bottom)
    }
}

/// The whole picture: the top of the frame, the rows from the top one down,
/// the bottom of the frame, and an empty line.
pub open spec fn picture(grid: Grid) -> Seq<char> {
    rule('\u{250F}', '\u{2533}', '\u{2513}', grid.width as int) + lines(grid, 0) + rule(
        '\u{2517}',
        '\u{253B}',
        '\u{251B}',
        grid.width as int,
    ) + seq!['\n']
}

/// Appends a horizontal rule over `columns` columns to `text`.
fn push_rule(text: &mut Vec<char>, left: char, joint: char, right: char, columns: usize)
    ensures
        final(text)@ == old(text)@ + rule(left, joint, right, columns as int),
{
    text.push(left);
    for column in 0..columns
        invariant
            text@ == old(text)@ + seq![left] + strokes(joint, column as int),
    {
        if column > 0 {
            text.push(joint);
        }
        text.push(BAR);
        text.push(BAR);
        text.push(BAR);
        assert(text@ == old(text)@ + seq![left] + strokes(joint, column + 1));
    }
    text.push(right);
    text.push('\n');
    assert(text@ == old(text)@ + rule(left, joint, right, columns as int));
}

/// Appends the line of row `row` to `text`.
#[verifier::loop_isolation(false)]
fn push_line(text: &mut Vec<char>, board: &Board, row: usize)
    requires
        board.wf(),
        row < board@.height,
    ensures
        final(text)@ == old(text)@ + line(board@, row as int),
{
    let width = board.width();
    text.push(POST);
    for column in 0..width
        invariant
            text@ == old(text)@ + seq![POST] + cells(board@, row as int, column as int),
    {
        match board.cell_at(row, column) {
            Cell::RED => {
                text.push(RED_DISC);
            },
            Cell::BLUE => {
                text.push(BLUE_DISC);
            },
            Cell::EMPTY => {
                text.push(' ');
                text.push(' ');
            },
        }
        text.push(' ');
        text.push(POST);
        assert(text@ == old(text)@ + seq![POST] + cells(board@, row as int, column + 1));
    }
    text.push('\n');
    assert(text@ == old(text)@ + line(board@, row as int));
}

/// Draws the board: a frame around the rows, the top row first, a disc for
/// each token and blanks for an empty cell.
#[verifier::loop_isolation(false)]
pub fn render(board: &Board) -> (text: Vec<char>)
    requires
        board.wf(),
    ensures
        text@ == picture(board@),
{
    let width = board.width();
    let height = board.height();
    let mut text: Vec<char> = Vec::new();
    push_rule(&mut text, '\u{250F}', '\u{2533}', '\u{2513}', width);
    let ghost top = text@;
    let mut row = height;
    while row > 0
        invariant
            row <= height,
            text@ == top + lines(board@, row as int),
        decreases row,
    {
        row -= 1;
        if row + 1 < height {
            push_rule(&mut text, '\u{2523}', '\u{254B}', '\u{252B}', width);
        }
        push_line(&mut text, board, row);
        assert(text@ == top + lines(board@, row as int));
    }
    push_rule(&mut text, '\u{2517}', '\u{253B}', '\u{251B}', width);
    text.push('\n');
    assert(text@ == picture(board@));
    text
}

} // verus!
