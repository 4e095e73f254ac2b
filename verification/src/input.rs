//! Reading a move from a line of text.
//!
//! A move is written as the column, one space, and the row, each a single
//! digit from `0` to `2`, with nothing before, between or after: `1 2` is the
//! square in column one, row two. The line is taken without its line ending.

use vstd::prelude::*;

verus! {

/// The byte that separates the two fields of a move.
pub const SPACE: u8 = 0x20;

/// The byte of the digit `0`.
pub const DIGIT_ZERO: u8 = 0x30;

/// Why a line of text is not a move.
#[derive(Clone, Copy, Debug, PartialEq, Eq, Structural)]
pub enum InputError {
    /// The line does not consist of two fields with one space between them.
    NotTwoFields,
    /// The first field is not one of `0`, `1`, `2`.
    BadColumn,
    /// The second field is not one of `0`, `1`, `2`.
    BadRow,
}

/// The number of spaces in `line`; a line of `n` spaces has `n + 1` fields.
pub open spec fn count_spaces(line: Seq<u8>) -> nat
    decreases line.len(),
{
    if line.len() == 0 {
        0
    } else if line.last() == SPACE {
        count_spaces(line.drop_last()) + 1
    } else {
        count_spaces(line.drop_last())
    }
}

/// The number of bytes of `line` before its first space, or the length of
/// `line` if it holds no space.
pub open spec fn first_field_len(line: Seq<u8>) -> nat
    decreases line.len(),
{
    if line.len() == 0 || line[0] == SPACE {
        0
    } else {
        first_field_len(line.skip(1)) + 1
    }
}

/// The coordinate that a field names: `0`, `1` or `2` for the one-byte fields
/// with those digits, and nothing for any other field.
pub open spec fn coordinate_of(field: Seq<u8>) -> Option<usize> {
    if field.len() == 1 && DIGIT_ZERO <= field[0] <= DIGIT_ZERO + 2 {
        Some((field[0] - DIGIT_ZERO) as usize)
    } else {
        None
    }
}

/// The move that a line of text names, by column and row, or the reason why
/// it names none. The fields are judged from the left: a line with a bad
/// column and a bad row is reported for its column.
pub open spec fn move_of(line: Seq<u8>) -> Result<(usize, usize), InputError> {
    if count_spaces(line) != 1 {
        Err(InputError::NotTwoFields)
    } else {
        let cut = first_field_len(line) as int;
        match coordinate_of(line.subrange(0, cut)) {
            None => Err(InputError::BadColumn),
            Some(x) => match coordinate_of(line.subrange(cut + 1, line.len() as int)) {
                None => Err(InputError::BadRow),
                Some(y) => Ok((x, y)),
            },
        }
    }
}

/// The first field of a line ends at a space or at the end of the line, and
/// holds no space itself.
proof fn lemma_first_field(line: Seq<u8>)
    ensures
        first_field_len(line) <= line.len(),
        first_field_len(line) < line.len() ==> line[first_field_len(line) as int] == SPACE,
        forall|i: int| 0 <= i < first_field_len(line) ==> line[i] != SPACE,
    decreases line.len(),
{
    if line.len() == 0 || line[0] == SPACE {
    } else {
        let rest = line.skip(1);
        lemma_first_field(rest);
        assert forall|i: int| 0 <= i < first_field_len(line) implies line[i] != SPACE by {
            if i > 0 {
                assert(rest[i - 1] == line[i]);
            }
        }
    }
}

/// A prefix without a space ends before the first space or with the line.
proof fn lemma_first_field_is_first_space(line: Seq<u8>, n: int)
    requires
        0 <= n <= line.len(),
        forall|i: int| 0 <= i < n ==> line[i] != SPACE,
        n < line.len() ==> line[n] == SPACE,
    ensures
        first_field_len(line) == n,
{
    lemma_first_field(line);
    let m = first_field_len(line) as int;
    if m < n {
        assert(line[m] == SPACE);
    } else if n < m {
        assert(line[n] == SPACE);
    }
}

/// Reads a coordinate from the bytes of `line` from `from` up to `to`.
fn read_coordinate(line: &[u8], from: usize, to: usize) -> (coordinate: Option<usize>)
    requires
        from <= to <= line@.len(),
    ensures
        coordinate == coordinate_of(line@.subrange(from as int, to as int)),
{
    if to - from != 1 {
        return None;
    }
    let digit: u8 = line[from];
    assert(line@.subrange(from as int, to as int)[0] == digit);
    if digit < DIGIT_ZERO || digit > DIGIT_ZERO + 2 {
        return None;
    }
    Some((digit - DIGIT_ZERO) as usize)
}

/// Reads a move from a line of text.
///
/// Returns the column and the row, each below three, if the line is a move,
/// and otherwise the first reason why it is none.
pub fn parse_move(line: &[u8]) -> (parsed: Result<(usize, usize), InputError>)
    ensures
        parsed == move_of(line@),
{
    let mut spaces: usize = 0;
    let mut cut: usize = 0;
    let mut i: usize = 0;
    while i < line.len()
        invariant
            i <= line@.len(),
            spaces == count_spaces(line@.take(i as int)),
            spaces <= i,
            spaces == 0 ==> cut == i,
            spaces > 0 ==> cut < i && line@[cut as int] == SPACE,
            forall|j: int| 0 <= j < cut ==> line@[j] != SPACE,
        decreases line@.len() - i,
    {
        assert(line@.take(i as int + 1).drop_last() =~= line@.take(i as int));
        if line[i] == SPACE {
            spaces += 1;
        } else if spaces == 0 {
            cut = i + 1;
        }
        i += 1;
    }
    proof {
        assert(line@.take(i as int) =~= line@);
        lemma_first_field_is_first_space(line@, cut as int);
    }
    if spaces != 1 {
        return Err(InputError::NotTwoFields);
    }
    match read_coordinate(line, 0, cut) {
        None => Err(InputError::BadColumn),
        Some(x) => match read_coordinate(line, cut + 1, line.len()) {
            None => Err(InputError::BadRow),
            Some(y) => Ok((x, y)),
        },
    }
}

/// A move that was read names a square of the grid.
pub proof fn lemma_move_is_in_grid(line: Seq<u8>)
    ensures
        move_of(line) matches Ok((x, y)) ==> x < 3 && y < 3,
{
}

} // verus!
