//! Player tokens and the states of a single cell.

use vstd::prelude::*;

verus! {

/// A player's token. A token always belongs to one of the two players: that
/// no token is there is a state of a [`Cell`], never of a player.
#[derive(Clone, Copy, Debug, PartialEq, Eq, Structural)]
pub enum Token {
    /// The red player, who conventionally moves first.
    RED,
    /// The blue player.
    BLUE,
}

/// What one position of the grid holds.
#[derive(Clone, Copy, Debug, PartialEq, Eq, Structural)]
pub enum Cell {
    /// No token.
    EMPTY,
    /// A token of the red player.
    RED,
    /// A token of the blue player.
    BLUE,
}

impl Token {
    /// The other player.
    pub open spec fn spec_other(self) -> Token {
        match self {
            Token::RED => Token::BLUE,
            Token::BLUE => Token::RED,
        }
    }

    /// The cell state that holds this token.
    pub open spec fn spec_cell(self) -> Cell {
        match self {
            Token::RED => Cell::RED,
            Token::BLUE => Cell::BLUE,
        }
    }

    /// What the player is called.
    pub open spec fn spec_name(self) -> Seq<char> {
        match self {
            Token::RED => "Red"@,
            Token::BLUE => "Blue"@,
        }
    }

    /// What the player is called.
    pub fn name(self) -> (name: &'static str)
        ensures
            name@ == self.spec_name(),
    {
        match self {
            Token::RED => "Red",
            Token::BLUE => "Blue",
        }
    }

    /// The player who moves after this one.
    #[verifier::when_used_as_spec(spec_other)]
    pub fn other(self) -> (next: Token)
        ensures
            next == self.spec_other(),
    {
        match self {
            Token::RED => Token::BLUE,
            Token::BLUE => Token::RED,
        }
    }

    /// The state of a cell once this token has landed in it.
    #[verifier::when_used_as_spec(spec_cell)]
    pub fn cell(self) -> (held: Cell)
        ensures
            held == self.spec_cell(),
    {
        match self {
            Token::RED => Cell::RED,
            Token::BLUE => Cell::BLUE,
        }
    }
}

} // verus!
