//! The contents of a single square, and the two players who may claim one.

use vstd::prelude::*;

verus! {

/// What a square of the grid holds.
#[derive(Clone, Copy, Debug, PartialEq, Eq, Structural)]
pub enum Token {
    Blank,
    X,
    O,
}

/// One of the two sides. Unlike a [`Token`], a player is never blank.
#[derive(Clone, Copy, Debug, PartialEq, Eq, Structural)]
pub enum Player {
    X,
    O,
}

/// The text that stands for a token when a grid is displayed.
pub open spec fn glyph(token: Token) -> Seq<char> {
    match token {
        Token::X => seq!['X'],
        Token::O => seq!['O'],
        Token::Blank => seq![' '],
    }
}

impl Player {
    /// The token that this player leaves on a square.
    pub open spec fn spec_token(self) -> Token {
        match self {
            Player::X => Token::X,
            Player::O => Token::O,
        }
    }

    /// The token that this player leaves on a square.
    #[verifier::when_used_as_spec(spec_token)]
    pub fn token(self) -> (token: Token)
        ensures
            token == self.spec_token(),
    {
        match self {
            Player::X => Token::X,
            Player::O => Token::O,
        }
    }

    /// The player who moves after this one.
    pub open spec fn spec_other(self) -> Player {
        match self {
            Player::X => Player::O,
            Player::O => Player::X,
        }
    }

    /// The player who moves after this one.
    #[verifier::when_used_as_spec(spec_other)]
    pub fn other(self) -> (next: Player)
        ensures
            next == self.spec_other(),
    {
        match self {
            Player::X => Player::O,
            Player::O => Player::X,
        }
    }
}

} // verus!
