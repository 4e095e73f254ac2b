//! The eight lines of three squares that decide a game.
//!
//! Squares are addressed by column `x` and row `y`, both counted from zero; row
//! zero is the top row and column zero the left column. The lines are numbered
//! in the order in which a grid is searched for a winner: the three rows from
//! top to bottom, the three columns from left to right, the diagonal that
//! starts in the top left corner, and the diagonal that starts in the bottom
//! left corner.

use vstd::prelude::*;

verus! {

/// The number of columns of the grid.
pub const XLEN: usize = 3;

/// The number of rows of the grid.
pub const YLEN: usize = 3;

/// The number of winning lines.
pub const NUMWINS: usize = 8;

/// Whether column `x`, row `y` addresses a square of the grid.
pub open spec fn in_grid(x: int, y: int) -> bool {
    0 <= x < XLEN && 0 <= y < YLEN
}

/// The `i`-th square of line `k`, for `k` below [`NUMWINS`] and `i` below three.
pub open spec fn line_square(k: int, i: int) -> (int, int) {
    if k < 3 {
        (i, k)
    } else if k < 6 {
        (k - 3, i)
    } else if k == 6 {
        (i, i)
    } else {
        (i, 2 - i)
    }
}

/// The three squares of line `k`, in order.
pub open spec fn win_line(k: int) -> Seq<(int, int)> {
    Seq::new(3, |i: int| line_square(k, i))
}

/// Whether `a`, `b`, `c` are three squares in a straight line, each one step
/// from the one before it: along a row, along a column, or along a diagonal.
pub open spec fn straight(a: (int, int), b: (int, int), c: (int, int)) -> bool {
    &&& a != b
    &&& -1 <= b.0 - a.0 <= 1
    &&& -1 <= b.1 - a.1 <= 1
    &&& c.0 - b.0 == b.0 - a.0
    &&& c.1 - b.1 == b.1 - a.1
}

/// Each line consists of three different squares of the grid, in a straight
/// line.
pub proof fn lemma_line_is_straight(k: int)
    requires
        0 <= k < NUMWINS,
    ensures
        forall|i: int| 0 <= i < 3 ==> in_grid(#[trigger] line_square(k, i).0, line_square(k, i).1),
        line_square(k, 0) != line_square(k, 1),
        line_square(k, 1) != line_square(k, 2),
        line_square(k, 0) != line_square(k, 2),
        straight(line_square(k, 0), line_square(k, 1), line_square(k, 2)),
{
}

/// The table lacks no line: three squares of the grid in a straight line are
/// the squares of one of the eight lines, read forwards or backwards.
pub proof fn lemma_straight_is_line(a: (int, int), b: (int, int), c: (int, int)) -> (k: int)
    requires
        in_grid(a.0, a.1),
        in_grid(b.0, b.1),
        in_grid(c.0, c.1),
        straight(a, b, c),
    ensures
        0 <= k < NUMWINS,
        b == line_square(k, 1),
        (a == line_square(k, 0) && c == line_square(k, 2)) || (a == line_square(k, 2) && c
            == line_square(k, 0)),
{
    if a.1 == b.1 {
        a.1
    } else if a.0 == b.0 {
        a.0 + 3
    } else if b.0 - a.0 == b.1 - a.1 {
        6
    } else {
        7
    }
}

/// No two of the eight lines consist of the same squares.
pub proof fn lemma_lines_differ(k: int, j: int)
    requires
        0 <= k < NUMWINS,
        0 <= j < NUMWINS,
        k != j,
    ensures
        exists|i: int| 0 <= i < 3 && !win_line(j).contains(#[trigger] line_square(k, i)),
{
    let outer = if line_square(k, 0) == line_square(j, 0) || line_square(k, 0) == line_square(j, 1)
        || line_square(k, 0) == line_square(j, 2) {
        2int
    } else {
        0int
    };
    assert(win_line(j)[0] == line_square(j, 0));
    assert(win_line(j)[1] == line_square(j, 1));
    assert(win_line(j)[2] == line_square(j, 2));
    assert(!win_line(j).contains(line_square(k, outer)));
}

/// One winning line: three squares of the grid, each by column and row.
#[derive(Clone, Copy, Debug, PartialEq, Eq)]
pub struct WinPattern {
    squares: [(usize, usize); 3],
}

impl View for WinPattern {
    type V = Seq<(int, int)>;

    closed spec fn view(&self) -> Seq<(int, int)> {
        Seq::new(3, |i: int| (self.squares[i].0 as int, self.squares[i].1 as int))
    }
}

impl WinPattern {
    /// The three squares of the pattern, in order.
    pub(crate) fn squares(&self) -> (squares: [(usize, usize); 3])
        ensures
            self@ == Seq::new(3, |i: int| (squares[i].0 as int, squares[i].1 as int)),
    {
        self.squares
    }

    /// Whether the square in column `x`, row `y` lies on the pattern.
    pub fn covers(&self, x: usize, y: usize) -> (covered: bool)
        ensures
            covered == self@.contains((x as int, y as int)),
    {
        let mut i: usize = 0;
        while i < 3
            invariant
                i <= 3,
                forall|j: int| 0 <= j < i ==> self@[j] != (x as int, y as int),
            decreases 3 - i,
        {
            if self.squares[i].0 == x && self.squares[i].1 == y {
                assert(self@[i as int] == (x as int, y as int));
                return true;
            }
            i += 1;
        }
        false
    }
}

/// Builds the table of winning lines: entry `k` of the table is line `k`.
pub fn win_table() -> (table: [WinPattern; NUMWINS])
    ensures
        forall|k: int| 0 <= k < NUMWINS ==> (#[trigger] table[k])@ == win_line(k),
{
    let mut table = [WinPattern { squares: [(0, 0); 3] }; NUMWINS];
    let mut incr: usize = 0;
    let mut y: usize = 0;
    while y < YLEN
        invariant
            y <= YLEN,
            incr == y,
            forall|k: int| 0 <= k < incr ==> (#[trigger] table[k])@ == win_line(k),
        decreases YLEN - y,
    {
        let mut x: usize = 0;
        while x < XLEN
            invariant
                x <= XLEN,
                y < YLEN,
                incr == y,
                forall|k: int| 0 <= k < incr ==> (#[trigger] table[k])@ == win_line(k),
                forall|i: int| 0 <= i < x ==> table[incr as int]@[i] == line_square(incr as int, i),
            decreases XLEN - x,
        {
            table[incr].squares[x] = (x, y);
            x += 1;
        }
        assert(table[incr as int]@ =~= win_line(incr as int));
        incr += 1;
        y += 1;
    }
    let mut x: usize = 0;
    while x < XLEN
        invariant
            x <= XLEN,
            incr == YLEN + x,
            forall|k: int| 0 <= k < incr ==> (#[trigger] table[k])@ == win_line(k),
        decreases XLEN - x,
    {
        let mut y: usize = 0;
        while y < YLEN
            invariant
                y <= YLEN,
                x < XLEN,
                incr == YLEN + x,
                forall|k: int| 0 <= k < incr ==> (#[trigger] table[k])@ == win_line(k),
                forall|i: int| 0 <= i < y ==> table[incr as int]@[i] == line_square(incr as int, i),
            decreases YLEN - y,
        {
            table[incr].squares[y] = (x, y);
            y += 1;
        }
        assert(table[incr as int]@ =~= win_line(incr as int));
        incr += 1;
        x += 1;
    }
    table[incr].squares[0] = (0, 0);
    table[incr].squares[1] = (1, 1);
    table[incr].squares[2] = (2, 2);
    assert(table[incr as int]@ =~= win_line(incr as int));
    incr += 1;
    table[incr].squares[0] = (0, 2);
    table[incr].squares[1] = (1, 1);
    table[incr].squares[2] = (2, 0);
    assert(table[incr as int]@ =~= win_line(incr as int));
    table
}

} // verus!
