//! The square-addressing scheme: a bijective mapping between a linear index
//! in 0..64 and (rank, file) pairs, plus algebraic notation ("a1".."h8").

use crate::text::push_char;
use vstd::prelude::*;

verus! {

/// Why a piece of algebraic square text was refused.
#[derive(Clone, Copy, Debug, PartialEq, Eq, Structural)]
pub enum ParseSquareError {
    /// The text is not exactly two characters long.
    WrongLength,
    /// The first character is not a file letter 'a'..='h'.
    InvalidFileChar,
    /// The second character is not a rank digit '1'..='8'.
    InvalidRankChar,
}

/// A square of the 8x8 board, stored as its linear index rank*8 + file.
#[derive(Clone, Copy, Debug, PartialEq, Eq, Structural)]
pub struct Square {
    idx: u8,
}

/// The linear index of the square at the given rank and file.
pub open spec fn square_index(rank: int, file: int) -> int {
    rank * 8 + file
}

/// The rank of the square with the given linear index.
pub open spec fn rank_of(index: int) -> int {
    index / 8
}

/// The file of the square with the given linear index.
pub open spec fn file_of(index: int) -> int {
    index % 8
}

/// The algebraic letter of a file: 0 maps to 'a', 7 to 'h'.
pub open spec fn file_char(file: int) -> char {
    if file == 0 {
        'a'
    } else if file == 1 {
        'b'
    } else if file == 2 {
        'c'
    } else if file == 3 {
        'd'
    } else if file == 4 {
        'e'
    } else if file == 5 {
        'f'
    } else if file == 6 {
        'g'
    } else {
        'h'
    }
}

/// The algebraic digit of a rank: 0 maps to '1', 7 to '8'.
pub open spec fn rank_char(rank: int) -> char {
    if rank == 0 {
        '1'
    } else if rank == 1 {
        '2'
    } else if rank == 2 {
        '3'
    } else if rank == 3 {
        '4'
    } else if rank == 4 {
        '5'
    } else if rank == 5 {
        '6'
    } else if rank == 6 {
        '7'
    } else {
        '8'
    }
}

/// The file denoted by an algebraic letter 'a'..='h', or nothing.
pub open spec fn char_file(c: char) -> Option<u8> {
    match c {
        'a' => Some(0u8),
        'b' => Some(1u8),
        'c' => Some(2u8),
        'd' => Some(3u8),
        'e' => Some(4u8),
        'f' => Some(5u8),
        'g' => Some(6u8),
        'h' => Some(7u8),
        _ => None,
    }
}

/// The rank denoted by an algebraic digit '1'..='8', or nothing.
pub open spec fn char_rank(c: char) -> Option<u8> {
    match c {
        '1' => Some(0u8),
        '2' => Some(1u8),
        '3' => Some(2u8),
        '4' => Some(3u8),
        '5' => Some(4u8),
        '6' => Some(5u8),
        '7' => Some(6u8),
        '8' => Some(7u8),
        _ => None,
    }
}

impl View for Square {
    type V = int;

    /// A square is viewed as its linear index.
    closed spec fn view(&self) -> int {
        self.idx as int
    }
}

impl Square {
    #[verifier::type_invariant]
    spec fn inv(self) -> bool {
        self.idx < 64
    }

    /// The square at the given rank and file; fails when either is out of
    /// range rather than wrapping.
    pub fn from_rank_and_file(rank: u8, file: u8) -> (r: Option<Square>)
        ensures
            (rank <= 7 && file <= 7) <==> r is Some,
            r matches Some(sq) ==> sq@ == square_index(rank as int, file as int),
    {
        if rank <= 7 && file <= 7 {
            Some(Square { idx: rank * 8 + file })
        } else {
            None
        }
    }

    /// The square with the given linear index; fails when the index is out
    /// of range 0..=63.
    pub fn from_index(index: usize) -> (r: Option<Square>)
        ensures
            (index <= 63) <==> r is Some,
            r matches Some(sq) ==> sq@ == index,
    {
        if index <= 63 {
            Some(Square { idx: index as u8 })
        } else {
            None
        }
    }

    /// The linear index, rank*8 + file, always in 0..=63.
    pub fn index(&self) -> (r: usize)
        ensures
            r == self@,
            r < 64,
    {
        proof {
            use_type_invariant(self);
        }
        self.idx as usize
    }

    /// The rank, 0 (bottom) through 7 (top).
    pub fn rank(&self) -> (r: u8)
        ensures
            r == rank_of(self@),
            r <= 7,
    {
        proof {
            use_type_invariant(self);
        }
        self.idx / 8
    }

    /// The file, 0 (left, file a) through 7 (right, file h).
    pub fn file(&self) -> (r: u8)
        ensures
            r == file_of(self@),
            r <= 7,
    {
        proof {
            use_type_invariant(self);
        }
        self.idx % 8
    }

    /// Parse two-character algebraic text: a file letter 'a'..='h' followed
    /// by a rank digit '1'..='8'. Any other length or character is refused.
    pub fn from_algebraic(s: &str) -> (r: Result<Square, ParseSquareError>)
        ensures
            match r {
                Ok(sq) => s@.len() == 2 && char_file(s@[0]) is Some && char_rank(s@[1]) is Some
                    && sq@ == square_index(
                    char_rank(s@[1]).unwrap() as int,
                    char_file(s@[0]).unwrap() as int,
                ),
                Err(ParseSquareError::WrongLength) => s@.len() != 2,
                Err(ParseSquareError::InvalidFileChar) => s@.len() == 2 && char_file(s@[0]) is None,
                Err(ParseSquareError::InvalidRankChar) => s@.len() == 2 && char_file(s@[0]) is Some
                    && char_rank(s@[1]) is None,
            },
    {
        let n = s.unicode_len();
        if n != 2 {
            return Err(ParseSquareError::WrongLength);
        }
        let file = match file_from_char(s.get_char(0)) {
            Some(f) => f,
            None => {
                return Err(ParseSquareError::InvalidFileChar);
            },
        };
        let rank = match rank_from_char(s.get_char(1)) {
            Some(r) => r,
            None => {
                return Err(ParseSquareError::InvalidRankChar);
            },
        };
        Ok(Square { idx: rank * 8 + file })
    }

    /// Render to algebraic text: the lowercase file letter followed by the
    /// 1-based rank digit; the inverse of parsing.
    pub fn to_algebraic(&self) -> (r: String)
        ensures
            r@ == seq![file_char(file_of(self@)), rank_char(rank_of(self@))],
    {
        proof {
            use_type_invariant(self);
        }
        let mut out = String::new();
        push_char(&mut out, char_of_file(self.idx % 8));
        push_char(&mut out, char_of_rank(self.idx / 8));
        proof {
            assert(out@ =~= seq![file_char(file_of(self@)), rank_char(rank_of(self@))]);
        }
        out
    }
}

/// The file denoted by an algebraic letter, as executable code.
fn file_from_char(c: char) -> (r: Option<u8>)
    ensures
        r == char_file(c),
{
    match c {
        'a' => Some(0u8),
        'b' => Some(1u8),
        'c' => Some(2u8),
        'd' => Some(3u8),
        'e' => Some(4u8),
        'f' => Some(5u8),
        'g' => Some(6u8),
        'h' => Some(7u8),
        _ => None,
    }
}

/// The rank denoted by an algebraic digit, as executable code.
fn rank_from_char(c: char) -> (r: Option<u8>)
    ensures
        r == char_rank(c),
{
    match c {
        '1' => Some(0u8),
        '2' => Some(1u8),
        '3' => Some(2u8),
        '4' => Some(3u8),
        '5' => Some(4u8),
        '6' => Some(5u8),
        '7' => Some(6u8),
        '8' => Some(7u8),
        _ => None,
    }
}

/// The algebraic letter of a file in 0..=7, as executable code.
pub(crate) fn char_of_file(file: u8) -> (r: char)
    requires
        file <= 7,
    ensures
        r == file_char(file as int),
{
    match file {
        0 => 'a',
        1 => 'b',
        2 => 'c',
        3 => 'd',
        4 => 'e',
        5 => 'f',
        6 => 'g',
        _ => 'h',
    }
}

/// The algebraic digit of a rank in 0..=7, as executable code.
pub(crate) fn char_of_rank(rank: u8) -> (r: char)
    requires
        rank <= 7,
    ensures
        r == rank_char(rank as int),
{
    match rank {
        0 => '1',
        1 => '2',
        2 => '3',
        3 => '4',
        4 => '5',
        5 => '6',
        6 => '7',
        _ => '8',
    }
}

/// Law: the rank and file of a square round-trip through its linear index.
pub proof fn lemma_square_round_trip(rank: int, file: int)
    requires
        0 <= rank <= 7,
        0 <= file <= 7,
    ensures
        rank_of(square_index(rank, file)) == rank,
        file_of(square_index(rank, file)) == file,
        0 <= square_index(rank, file) <= 63,
{
}

/// Law: a linear index in 0..=63 decomposes into a rank and a file in
/// 0..=7 that recompose to the same index.
pub proof fn lemma_index_round_trip(index: int)
    requires
        0 <= index <= 63,
    ensures
        square_index(rank_of(index), file_of(index)) == index,
        0 <= rank_of(index) <= 7,
        0 <= file_of(index) <= 7,
{
}

/// Law: rendering a file or rank to its algebraic character and parsing it
/// back returns the same value; rendering is the inverse of parsing.
pub proof fn lemma_algebraic_round_trip(rank: int, file: int)
    requires
        0 <= rank <= 7,
        0 <= file <= 7,
    ensures
        char_file(file_char(file)) == Some(file as u8),
        char_rank(rank_char(rank)) == Some(rank as u8),
{
}

} // verus!
