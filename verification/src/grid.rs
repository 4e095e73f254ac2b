//! The mathematical model of a game: the grid as a map from squares to tokens,
//! and the outcome that a grid stands for.

use vstd::prelude::*;
use crate::lines::{in_grid, line_square, NUMWINS};
use crate::token::{Player, Token};

verus! {

/// The state of a game, as far as the grid shows it.
#[derive(Clone, Copy, Debug, PartialEq, Eq, Structural)]
pub enum Outcome {
    /// Nobody has won and a square is still blank.
    InProgress,
    /// The player holds all three squares of a line.
    Win(Player),
    /// Every square is taken and nobody has won.
    Draw,
}

/// A grid: the token on each square, by column and row.
pub type Grid = Map<(int, int), Token>;

/// The grid on which every square is blank.
pub open spec fn empty_grid() -> Grid {
    Map::new(|square: (int, int)| in_grid(square.0, square.1), |square: (int, int)| Token::Blank)
}

/// The grid after a token is put on the square in column `x`, row `y`.
pub open spec fn with_token(grid: Grid, x: int, y: int, token: Token) -> Grid {
    grid.insert((x, y), token)
}

/// Whether every square that holds a player's token on `before` holds the
/// same token on `after`.
pub open spec fn tokens_stay(before: Grid, after: Grid) -> bool {
    forall|x: int, y: int| #[trigger]
        before[(x, y)] != Token::Blank ==> after[(x, y)] == before[(x, y)]
}

/// Whether `player` holds all three squares of line `k`.
pub open spec fn owns_line(grid: Grid, player: Player, k: int) -> bool {
    &&& grid[line_square(k, 0)] == player.token()
    &&& grid[line_square(k, 1)] == player.token()
    &&& grid[line_square(k, 2)] == player.token()
}

/// The player who holds all three squares of line `k`, if one does.
pub open spec fn line_owner(grid: Grid, k: int) -> Option<Player> {
    if owns_line(grid, Player::X, k) {
        Some(Player::X)
    } else if owns_line(grid, Player::O, k) {
        Some(Player::O)
    } else {
        None
    }
}

/// The owner of the first owned line among lines `k`, `k + 1`, ..., if any of
/// them is owned.
pub open spec fn winner_from(grid: Grid, k: int) -> Option<Player>
    decreases NUMWINS - k,
{
    if k < 0 || k >= NUMWINS {
        None
    } else if line_owner(grid, k) is Some {
        line_owner(grid, k)
    } else {
        winner_from(grid, k + 1)
    }
}

/// The owner of the first owned line, in the fixed order of the lines.
pub open spec fn winner(grid: Grid) -> Option<Player> {
    winner_from(grid, 0)
}

/// Whether a square of the grid is blank.
pub open spec fn has_blank(grid: Grid) -> bool {
    exists|x: int, y: int| in_grid(x, y) && #[trigger] grid[(x, y)] == Token::Blank
}

/// The outcome that a grid stands for: a win for the owner of the first owned
/// line; failing that, a game in progress while a square is blank, and a draw
/// once none is.
pub open spec fn outcome_of(grid: Grid) -> Outcome {
    match winner(grid) {
        Some(player) => Outcome::Win(player),
        None => if has_blank(grid) {
            Outcome::InProgress
        } else {
            Outcome::Draw
        },
    }
}

/// Whether the lines that are owned on `grid`, if any, all belong to one
/// player.
pub open spec fn one_sided(grid: Grid) -> bool {
    forall|k: int, j: int|
        0 <= k < NUMWINS && 0 <= j < NUMWINS ==> !(#[trigger] owns_line(grid, Player::X, k)
            && #[trigger] owns_line(grid, Player::O, j))
}

/// No line of the empty grid is owned, so a game that has just begun is in
/// progress.
pub proof fn lemma_empty_grid_in_progress()
    ensures
        winner(empty_grid()) is None,
        has_blank(empty_grid()),
        outcome_of(empty_grid()) == Outcome::InProgress,
{
    let grid = empty_grid();
    assert(forall|k: int| 0 <= k < NUMWINS ==> in_grid(line_square(k, 0).0, line_square(k, 0).1));
    assert(forall|k: int| 0 <= k < NUMWINS ==> line_owner(grid, k) is None);
    reveal_with_fuel(winner_from, 9);
    assert(in_grid(0, 0) && grid[(0, 0)] == Token::Blank);
}

/// The number of the first owned line among lines `k`, `k + 1`, ..., or
/// [`NUMWINS`] if none of them is owned.
spec fn first_owned(grid: Grid, k: int) -> int
    decreases NUMWINS - k,
{
    if k < 0 || k >= NUMWINS {
        NUMWINS as int
    } else if line_owner(grid, k) is Some {
        k
    } else {
        first_owned(grid, k + 1)
    }
}

/// A player wins exactly when that player owns a line and no earlier line is
/// owned by anybody.
pub proof fn lemma_winner_owns_first_line(grid: Grid, player: Player)
    ensures
        winner(grid) == Some(player) <==> exists|k: int|
            0 <= k < NUMWINS && #[trigger] owns_line(grid, player, k) && forall|j: int|
                0 <= j < k ==> line_owner(grid, j) is None,
{
    reveal_with_fuel(winner_from, 9);
    reveal_with_fuel(first_owned, 9);
    if winner(grid) == Some(player) {
        let k = first_owned(grid, 0);
        assert(line_owner(grid, k) == Some(player));
        assert(owns_line(grid, player, k));
    }
    if exists|k: int|
        0 <= k < NUMWINS && #[trigger] owns_line(grid, player, k) && forall|j: int|
            0 <= j < k ==> line_owner(grid, j) is None {
        let k = choose|k: int|
            0 <= k < NUMWINS && #[trigger] owns_line(grid, player, k) && forall|j: int|
                0 <= j < k ==> line_owner(grid, j) is None;
        assert(line_owner(grid, k) == Some(player));
    }
}

/// Nobody has won exactly when no line is owned.
pub proof fn lemma_no_winner_no_owner(grid: Grid)
    ensures
        winner(grid) is None <==> forall|k: int|
            0 <= k < NUMWINS ==> #[trigger] line_owner(grid, k) is None,
{
    reveal_with_fuel(winner_from, 9);
}

/// A token that was placed stays: putting a token on a blank square changes
/// no square that a player holds.
pub proof fn lemma_placed_tokens_stay(grid: Grid, x: int, y: int, token: Token)
    requires
        grid[(x, y)] == Token::Blank,
    ensures
        tokens_stay(grid, with_token(grid, x, y, token)),
{
}

/// A move never completes a line for the opponent: after `player` moves on a
/// blank square of a grid on which no line is owned, the opponent owns no
/// line.
pub proof fn lemma_move_gives_opponent_no_line(grid: Grid, x: int, y: int, player: Player)
    requires
        winner(grid) is None,
        in_grid(x, y),
        grid[(x, y)] == Token::Blank,
    ensures
        forall|k: int|
            0 <= k < NUMWINS ==> !#[trigger] owns_line(
                with_token(grid, x, y, player.token()),
                player.other(),
                k,
            ),
{
    let after = with_token(grid, x, y, player.token());
    lemma_no_winner_no_owner(grid);
    assert forall|k: int| 0 <= k < NUMWINS implies !#[trigger] owns_line(
        after,
        player.other(),
        k,
    ) by {
        if owns_line(after, player.other(), k) {
            assert(line_square(k, 0) != (x, y));
            assert(line_square(k, 1) != (x, y));
            assert(line_square(k, 2) != (x, y));
            assert(owns_line(grid, player.other(), k));
            assert(line_owner(grid, k) is Some);
        }
    }
}

/// A move from a game in progress leaves the game in progress, wins it for
/// the player who moved, or draws it; it is a draw only if the move took the
/// last blank square.
pub proof fn lemma_move_outcome(grid: Grid, x: int, y: int, player: Player)
    requires
        outcome_of(grid) == Outcome::InProgress,
        in_grid(x, y),
        grid[(x, y)] == Token::Blank,
    ensures
        outcome_of(with_token(grid, x, y, player.token())) != Outcome::Win(player.other()),
        outcome_of(with_token(grid, x, y, player.token())) == Outcome::Draw ==> forall|
            i: int,
            j: int,
        |
            in_grid(i, j) && (i, j) != (x, y) ==> #[trigger] grid[(i, j)] != Token::Blank,
{
    let after = with_token(grid, x, y, player.token());
    lemma_move_gives_opponent_no_line(grid, x, y, player);
    lemma_winner_owns_first_line(after, player.other());
    if outcome_of(after) == Outcome::Draw {
        assert forall|i: int, j: int| in_grid(i, j) && (i, j) != (x, y) implies #[trigger] grid[(
            i,
            j,
        )] != Token::Blank by {
            if grid[(i, j)] == Token::Blank {
                assert(after[(i, j)] == Token::Blank);
            }
        }
    }
}

} // verus!
