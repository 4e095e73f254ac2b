//! The game board: nine squares, the table of winning lines, and the two
//! operations of a game, placing a token and reading the outcome.

use vstd::prelude::*;
use crate::grid::{
    empty_grid, lemma_empty_grid_in_progress, lemma_placed_tokens_stay, line_owner, outcome_of,
    tokens_stay, winner_from, with_token, Grid, Outcome,
};
use crate::lines::{in_grid, line_square, win_line, win_table, WinPattern, NUMWINS, XLEN, YLEN};
use crate::token::{glyph, Player, Token};

verus! {

/// Why a token could not be placed.
#[derive(Clone, Copy, Debug, PartialEq, Eq, Structural)]
pub enum PlacementError {
    /// The column or the row is not one of the grid.
    OutOfBounds,
    /// The square already holds a player's token.
    CellOccupied,
}

/// A board of three columns and three rows, with the table of its winning
/// lines. The board records the tokens it is given; whose turn it is, and
/// whether the game is over, is for the caller to keep track of.
#[derive(Clone, Copy, Debug, PartialEq, Eq)]
pub struct GameBoard {
    board: [[Token; YLEN]; XLEN],
    win_check_table: [WinPattern; NUMWINS],
}

impl View for GameBoard {
    type V = Grid;

    closed spec fn view(&self) -> Grid {
        Map::new(
            |square: (int, int)| in_grid(square.0, square.1),
            |square: (int, int)| self.board[square.0][square.1],
        )
    }
}

impl GameBoard {
    /// Entry `k` of the table is line `k`, from construction on.
    #[verifier::type_invariant]
    spec fn table_is_complete(&self) -> bool {
        forall|k: int| 0 <= k < NUMWINS ==> (#[trigger] self.win_check_table[k])@ == win_line(k)
    }

    /// A board has a token for each square of the grid and for nothing else.
    pub proof fn lemma_view_covers_grid(&self)
        ensures
            forall|x: int, y: int| #[trigger] self@.dom().contains((x, y)) <==> in_grid(x, y),
    {
        assert forall|x: int, y: int| #[trigger]
            self@.dom().contains((x, y)) <==> in_grid(x, y) by {
            let square = (x, y);
            assert(self@.dom().contains(square) <==> in_grid(square.0, square.1));
        }
    }

    /// A board for a new game: every square is blank, and the game is in
    /// progress.
    pub fn new() -> (fresh: GameBoard)
        ensures
            fresh@ == empty_grid(),
            outcome_of(fresh@) == Outcome::InProgress,
    {
        proof {
            lemma_empty_grid_in_progress();
        }
        GameBoard { board: [[Token::Blank; YLEN]; XLEN], win_check_table: win_table() }
    }

    /// Puts `token`, which is a player's, on the square in column `x`, row
    /// `y`, if that is a blank square of the grid, and says whether it did.
    /// Otherwise the board stays as it is. Either way, every square that held
    /// a player's token still holds it.
    pub fn mark(&mut self, x: usize, y: usize, token: Token) -> (marked: bool)
        requires
            token != Token::Blank,
        ensures
            marked <==> in_grid(x as int, y as int) && old(self)@[(x as int, y as int)]
                == Token::Blank,
            marked ==> final(self)@ == with_token(old(self)@, x as int, y as int, token),
            !marked ==> *final(self) == *old(self),
            tokens_stay(old(self)@, final(self)@),
    {
        if x > XLEN - 1 || y > YLEN - 1 {
            return false;
        }
        if self.board[x][y] != Token::Blank {
            return false;
        }
        proof {
            use_type_invariant(&*self);
        }
        self.board[x][y] = token;
        proof {
            assert(self@ =~= with_token(old(self)@, x as int, y as int, token));
            lemma_placed_tokens_stay(old(self)@, x as int, y as int, token);
        }
        true
    }

    /// Places the token of `token` on the square in column `x`, row `y`.
    ///
    /// Fails with `OutOfBounds` if `x` or `y` is not below three, and with
    /// `CellOccupied` if the square is not blank; the board is then unchanged.
    /// Either way, every square that held a player's token still holds it.
    pub fn place(&mut self, x: usize, y: usize, token: Player) -> (placed: Result<
        (),
        PlacementError,
    >)
        ensures
            !in_grid(x as int, y as int) ==> placed == Err::<(), PlacementError>(
                PlacementError::OutOfBounds,
            ),
            in_grid(x as int, y as int) && old(self)@[(x as int, y as int)] != Token::Blank
                ==> placed == Err::<(), PlacementError>(PlacementError::CellOccupied),
            in_grid(x as int, y as int) && old(self)@[(x as int, y as int)] == Token::Blank
                ==> placed == Ok::<(), PlacementError>(()),
            placed is Err ==> *final(self) == *old(self),
            placed is Ok ==> final(self)@ == with_token(
                old(self)@,
                x as int,
                y as int,
                token.token(),
            ),
            tokens_stay(old(self)@, final(self)@),
    {
        if x > XLEN - 1 || y > YLEN - 1 {
            Err(PlacementError::OutOfBounds)
        } else if self.mark(x, y, token.token()) {
            Ok(())
        } else {
            Err(PlacementError::CellOccupied)
        }
    }

    /// The player who holds all three squares of line `k`, if one does.
    fn owner_of_line(&self, k: usize) -> (owner: Option<Player>)
        requires
            k < NUMWINS,
        ensures
            owner == line_owner(self@, k as int),
    {
        proof {
            use_type_invariant(self);
        }
        let squares = self.win_check_table[k].squares();
        let mut xcount: usize = 0;
        let mut ocount: usize = 0;
        let mut i: usize = 0;
        while i < 3
            invariant
                i <= 3,
                k < NUMWINS,
                self.win_check_table[k as int]@ == win_line(k as int),
                self.win_check_table[k as int]@ == Seq::new(
                    3,
                    |i: int| (squares[i].0 as int, squares[i].1 as int),
                ),
                xcount <= i,
                ocount <= i,
                xcount == i <==> forall|j: int|
                    0 <= j < i ==> self@[#[trigger] line_square(k as int, j)] == Token::X,
                ocount == i <==> forall|j: int|
                    0 <= j < i ==> self@[#[trigger] line_square(k as int, j)] == Token::O,
            decreases 3 - i,
        {
            let (x, y) = squares[i];
            assert(self.win_check_table[k as int]@[i as int] == (x as int, y as int));
            assert((x as int, y as int) == line_square(k as int, i as int));
            if self.board[x][y] == Token::X {
                xcount = xcount + 1;
            } else if self.board[x][y] == Token::O {
                ocount = ocount + 1;
            }
            i += 1;
        }
        if xcount == 3 {
            Some(Player::X)
        } else if ocount == 3 {
            Some(Player::O)
        } else {
            None
        }
    }

    /// The outcome that the board stands for.
    ///
    /// The lines are searched in their fixed order and the first line whose
    /// three squares hold one player's token decides for that player. If no
    /// line is owned, the game is in progress while a square is blank, and
    /// drawn once none is. The result depends on the tokens on the board and
    /// on nothing else.
    pub fn evaluate(&self) -> (outcome: Outcome)
        ensures
            outcome == outcome_of(self@),
    {
        let mut ii: usize = 0;
        while ii < NUMWINS
            invariant
                ii <= NUMWINS,
                winner_from(self@, 0) == winner_from(self@, ii as int),
            decreases NUMWINS - ii,
        {
            match self.owner_of_line(ii) {
                Some(player) => {
                    return Outcome::Win(player);
                },
                None => {},
            }
            ii += 1;
        }
        let mut found = false;
        let mut x: usize = 0;
        while x < XLEN
            invariant
                x <= XLEN,
                found <==> exists|i: int, j: int|
                    0 <= i < x && 0 <= j < YLEN && #[trigger] self@[(i, j)] == Token::Blank,
            decreases XLEN - x,
        {
            let mut y: usize = 0;
            while y < YLEN
                invariant
                    y <= YLEN,
                    x < XLEN,
                    found <==> exists|i: int, j: int|
                        (0 <= i < x && 0 <= j < YLEN || i == x && 0 <= j < y)
                            && #[trigger] self@[(i, j)] == Token::Blank,
                decreases YLEN - y,
            {
                if self.board[x][y] == Token::Blank {
                    assert(self@[(x as int, y as int)] == Token::Blank);
                    found = true;
                }
                y += 1;
            }
            x += 1;
        }
        if found {
            Outcome::InProgress
        } else {
            Outcome::Draw
        }
    }

    /// The text that stands for `token` when the board is displayed: `"X"`,
    /// `"O"`, or a space for a blank square.
    #[allow(non_snake_case)]
    pub fn tokenToStr(&self, token: Token) -> (text: &str)
        ensures
            text@ == glyph(token),
    {
        proof {
            reveal_strlit("X");
            reveal_strlit("O");
            reveal_strlit(" ");
        }
        if token == Token::X {
            assert("X"@ =~= glyph(token));
            return "X";
        } else if token == Token::O {
            assert("O"@ =~= glyph(token));
            return "O";
        } else {
            assert(" "@ =~= glyph(token));
            return " ";
        }
    }

    /// The nine squares as they are displayed, row by row from the top and,
    /// within a row, from the left: entry `i` stands for the square in column
    /// `i % 3`, row `i / 3`.
    pub fn render(&self) -> (glyphs: Vec<&str>)
        ensures
            glyphs@.len() == XLEN * YLEN,
            forall|i: int|
                0 <= i < XLEN * YLEN ==> (#[trigger] glyphs@[i])@ == glyph(
                    self@[(i % XLEN as int, i / XLEN as int)],
                ),
    {
        let mut glyphs: Vec<&str> = Vec::new();
        let mut y: usize = 0;
        while y < YLEN
            invariant
                y <= YLEN,
                glyphs@.len() == y * XLEN,
                forall|i: int|
                    0 <= i < glyphs@.len() ==> (#[trigger] glyphs@[i])@ == glyph(
                        self@[(i % XLEN as int, i / XLEN as int)],
                    ),
            decreases YLEN - y,
        {
            let mut x: usize = 0;
            while x < XLEN
                invariant
                    x <= XLEN,
                    y < YLEN,
                    glyphs@.len() == y * XLEN + x,
                    forall|i: int|
                        0 <= i < glyphs@.len() ==> (#[trigger] glyphs@[i])@ == glyph(
                            self@[(i % XLEN as int, i / XLEN as int)],
                        ),
                decreases XLEN - x,
            {
                glyphs.push(self.tokenToStr(self.board[x][y]));
                x += 1;
            }
            y += 1;
        }
        glyphs
    }

    /// The table of winning lines, in the order in which `evaluate` searches
    /// them.
    pub fn patterns(&self) -> (table: &[WinPattern; NUMWINS])
        ensures
            forall|k: int| 0 <= k < NUMWINS ==> (#[trigger] table[k])@ == win_line(k),
    {
        proof {
            use_type_invariant(self);
        }
        &self.win_check_table
    }
}

} // verus!
