//! One game from the first move to the last: the board, whose turn it is, and
//! what becomes of each move that is offered.
//!
//! The board itself takes any token on any blank square. The rules of play are
//! kept here: the players alternate, beginning with `X`; a move that is not
//! accepted does not use up the turn; and once the game is won or drawn no
//! further move is accepted.

use vstd::prelude::*;
use crate::board::{GameBoard, PlacementError};
use crate::grid::{
    empty_grid, lemma_move_gives_opponent_no_line, lemma_move_outcome, one_sided, outcome_of,
    owns_line, with_token, Grid, Outcome,
};
use crate::input::{move_of, parse_move, InputError};
use crate::lines::{in_grid, NUMWINS};
use crate::token::{Player, Token};

verus! {

/// What became of a move that was offered to a game.
#[derive(Clone, Copy, Debug, PartialEq, Eq, Structural)]
pub enum TurnReport {
    /// The line of text was not a move. The same player is to move.
    Malformed(InputError),
    /// The move named no blank square of the grid. The same player is to move.
    Refused(PlacementError),
    /// The token was placed, with the outcome that the board now stands for.
    /// The turn has passed to the other player.
    Placed(Outcome),
    /// The game had already ended with this outcome; nothing was placed.
    Finished(Outcome),
}

/// A game in play.
#[derive(Clone, Copy, Debug, PartialEq, Eq)]
pub struct Game {
    board: GameBoard,
    token_turn: Player,
}

impl Game {
    /// Every game begins on the empty grid and accepts a move only while
    /// nobody has won, so at most one player ever owns a line.
    #[verifier::type_invariant]
    spec fn at_most_one_winner(&self) -> bool {
        one_sided(self.board@)
    }

    /// The tokens on the board.
    pub closed spec fn grid(&self) -> Grid {
        self.board@
    }

    /// The player whose turn it is.
    pub closed spec fn mover(&self) -> Player {
        self.token_turn
    }

    /// A game has a token for each square of the grid and for nothing else.
    pub proof fn lemma_grid_covers_grid(&self)
        ensures
            forall|x: int, y: int| #[trigger] self.grid().dom().contains((x, y)) <==> in_grid(x, y),
    {
        self.board.lemma_view_covers_grid();
    }

    /// A new game: the board is empty and `X` moves first.
    pub fn new() -> (game: Game)
        ensures
            game.grid() == empty_grid(),
            game.mover() == Player::X,
    {
        let board = GameBoard::new();
        assert(one_sided(board@)) by {
            assert(forall|k: int| 0 <= k < NUMWINS ==> !owns_line(empty_grid(), Player::X, k));
        }
        Game { board, token_turn: Player::X }
    }

    /// The board as it stands. On it, the lines that are owned all belong to
    /// one player.
    pub fn board(&self) -> (board: &GameBoard)
        ensures
            board@ == self.grid(),
            one_sided(board@),
    {
        proof {
            use_type_invariant(self);
        }
        &self.board
    }

    /// The player whose turn it is.
    pub fn turn(&self) -> (player: Player)
        ensures
            player == self.mover(),
    {
        self.token_turn
    }

    /// Whether the game has been won or drawn.
    pub fn is_over(&self) -> (over: bool)
        ensures
            over <==> outcome_of(self.grid()) != Outcome::InProgress,
    {
        self.board.evaluate() != Outcome::InProgress
    }

    /// Offers the square in column `x`, row `y` as the move of the player
    /// whose turn it is.
    ///
    /// While the game is in progress, a blank square of the grid takes that
    /// player's token and the turn passes to the other player; the move may
    /// win the game for the player who made it, never for the other. Any other
    /// square is refused and the game stays as it is. A game that is over
    /// stays as it is, whatever the square.
    pub fn play(&mut self, x: usize, y: usize) -> (report: TurnReport)
        ensures
            match report {
                TurnReport::Finished(outcome) => {
                    &&& outcome != Outcome::InProgress
                    &&& outcome == outcome_of(old(self).grid())
                    &&& *final(self) == *old(self)
                },
                TurnReport::Refused(error) => {
                    &&& outcome_of(old(self).grid()) == Outcome::InProgress
                    &&& match error {
                        PlacementError::OutOfBounds => !in_grid(x as int, y as int),
                        PlacementError::CellOccupied => {
                            &&& in_grid(x as int, y as int)
                            &&& old(self).grid()[(x as int, y as int)] != Token::Blank
                        },
                    }
                    &&& *final(self) == *old(self)
                },
                TurnReport::Placed(outcome) => {
                    &&& outcome_of(old(self).grid()) == Outcome::InProgress
                    &&& in_grid(x as int, y as int)
                    &&& old(self).grid()[(x as int, y as int)] == Token::Blank
                    &&& final(self).grid() == with_token(
                        old(self).grid(),
                        x as int,
                        y as int,
                        old(self).mover().token(),
                    )
                    &&& final(self).mover() == old(self).mover().other()
                    &&& outcome == outcome_of(final(self).grid())
                    &&& outcome != Outcome::Win(final(self).mover())
                },
                TurnReport::Malformed(_) => false,
            },
    {
        let before = self.board.evaluate();
        if before != Outcome::InProgress {
            return TurnReport::Finished(before);
        }
        let mut board = self.board;
        match board.place(x, y, self.token_turn) {
            Err(error) => TurnReport::Refused(error),
            Ok(()) => {
                proof {
                    lemma_move_outcome(self.board@, x as int, y as int, self.token_turn);
                }
                assert(one_sided(board@)) by {
                    let mover = self.token_turn;
                    lemma_move_gives_opponent_no_line(self.board@, x as int, y as int, mover);
                    assert(board@ == with_token(self.board@, x as int, y as int, mover.token()));
                    assert forall|k: int| 0 <= k < NUMWINS implies !owns_line(
                        board@,
                        mover.other(),
                        k,
                    ) by {}
                }
                let outcome = board.evaluate();
                self.board = board;
                self.token_turn = self.token_turn.other();
                TurnReport::Placed(outcome)
            },
        }
    }

    /// Offers a line of text as the move of the player whose turn it is.
    ///
    /// While the game is in progress, a line that is not a move is reported
    /// and the game stays as it is; a line that is a move is played as `play`
    /// plays its square. A game that is over stays as it is, whatever the
    /// line.
    pub fn step(&mut self, line: &[u8]) -> (report: TurnReport)
        ensures
            match report {
                TurnReport::Finished(outcome) => {
                    &&& outcome != Outcome::InProgress
                    &&& outcome == outcome_of(old(self).grid())
                    &&& *final(self) == *old(self)
                },
                TurnReport::Malformed(error) => {
                    &&& outcome_of(old(self).grid()) == Outcome::InProgress
                    &&& move_of(line@) == Err::<(usize, usize), InputError>(error)
                    &&& *final(self) == *old(self)
                },
                TurnReport::Refused(error) => {
                    &&& outcome_of(old(self).grid()) == Outcome::InProgress
                    &&& move_of(line@) matches Ok((x, y))
                    &&& error == PlacementError::CellOccupied
                    &&& old(self).grid()[(x as int, y as int)] != Token::Blank
                    &&& *final(self) == *old(self)
                },
                TurnReport::Placed(outcome) => {
                    &&& outcome_of(old(self).grid()) == Outcome::InProgress
                    &&& move_of(line@) matches Ok((x, y))
                    &&& old(self).grid()[(x as int, y as int)] == Token::Blank
                    &&& final(self).grid() == with_token(
                        old(self).grid(),
                        x as int,
                        y as int,
                        old(self).mover().token(),
                    )
                    &&& final(self).mover() == old(self).mover().other()
                    &&& outcome == outcome_of(final(self).grid())
                    &&& outcome != Outcome::Win(final(self).mover())
                },
            },
    {
        let before = self.board.evaluate();
        if before != Outcome::InProgress {
            return TurnReport::Finished(before);
        }
        match parse_move(line) {
            Err(error) => TurnReport::Malformed(error),
            Ok((x, y)) => self.play(x, y),
        }
    }
}

} // verus!
