//! The piece model: a color and a kind, with a bijective mapping to and from
//! the twelve FEN piece letters (uppercase for White, lowercase for Black).

use vstd::prelude::*;

verus! {

/// One of the two sides of a chess game.
#[derive(Clone, Copy, Debug, PartialEq, Eq, Structural)]
pub enum PieceColor {
    White,
    Black,
}

/// One of the six kinds of chess piece.
#[derive(Clone, Copy, Debug, PartialEq, Eq, Structural)]
pub enum PieceKind {
    King,
    Queen,
    Rook,
    Bishop,
    Knight,
    Pawn,
}

/// A piece: a color together with a kind.
#[derive(Clone, Copy, Debug, PartialEq, Eq, Structural)]
pub struct Piece {
    pub color: PieceColor,
    pub kind: PieceKind,
}

/// The other color: White and Black exchange.
pub open spec fn opposite_color(c: PieceColor) -> PieceColor {
    match c {
        PieceColor::White => PieceColor::Black,
        PieceColor::Black => PieceColor::White,
    }
}

/// The FEN letter of a piece: `KQRBNP` for White, `kqrbnp` for Black.
pub open spec fn piece_char(p: Piece) -> char {
    match (p.color, p.kind) {
        (PieceColor::White, PieceKind::King) => 'K',
        (PieceColor::White, PieceKind::Queen) => 'Q',
        (PieceColor::White, PieceKind::Rook) => 'R',
        (PieceColor::White, PieceKind::Bishop) => 'B',
        (PieceColor::White, PieceKind::Knight) => 'N',
        (PieceColor::White, PieceKind::Pawn) => 'P',
        (PieceColor::Black, PieceKind::King) => 'k',
        (PieceColor::Black, PieceKind::Queen) => 'q',
        (PieceColor::Black, PieceKind::Rook) => 'r',
        (PieceColor::Black, PieceKind::Bishop) => 'b',
        (PieceColor::Black, PieceKind::Knight) => 'n',
        (PieceColor::Black, PieceKind::Pawn) => 'p',
    }
}

/// The piece denoted by a FEN letter, or nothing for any other character.
pub open spec fn char_piece(c: char) -> Option<Piece> {
    match c {
        'K' => Some(Piece { color: PieceColor::White, kind: PieceKind::King }),
        'Q' => Some(Piece { color: PieceColor::White, kind: PieceKind::Queen }),
        'R' => Some(Piece { color: PieceColor::White, kind: PieceKind::Rook }),
        'B' => Some(Piece { color: PieceColor::White, kind: PieceKind::Bishop }),
        'N' => Some(Piece { color: PieceColor::White, kind: PieceKind::Knight }),
        'P' => Some(Piece { color: PieceColor::White, kind: PieceKind::Pawn }),
        'k' => Some(Piece { color: PieceColor::Black, kind: PieceKind::King }),
        'q' => Some(Piece { color: PieceColor::Black, kind: PieceKind::Queen }),
        'r' => Some(Piece { color: PieceColor::Black, kind: PieceKind::Rook }),
        'b' => Some(Piece { color: PieceColor::Black, kind: PieceKind::Bishop }),
        'n' => Some(Piece { color: PieceColor::Black, kind: PieceKind::Knight }),
        'p' => Some(Piece { color: PieceColor::Black, kind: PieceKind::Pawn }),
        _ => None,
    }
}

impl PieceColor {
    /// The opposite side.
    pub fn opposite(self) -> (r: PieceColor)
        ensures
            r == opposite_color(self),
    {
        match self {
            PieceColor::White => PieceColor::Black,
            PieceColor::Black => PieceColor::White,
        }
    }
}

impl Piece {
    /// A piece of the given color and kind.
    pub fn new(color: PieceColor, kind: PieceKind) -> (r: Piece)
        ensures
            r == (Piece { color, kind }),
    {
        Piece { color, kind }
    }

    /// The FEN letter for this piece.
    pub fn to_fen(&self) -> (r: char)
        ensures
            r == piece_char(*self),
    {
        match (self.color, self.kind) {
            (PieceColor::White, PieceKind::King) => 'K',
            (PieceColor::White, PieceKind::Queen) => 'Q',
            (PieceColor::White, PieceKind::Rook) => 'R',
            (PieceColor::White, PieceKind::Bishop) => 'B',
            (PieceColor::White, PieceKind::Knight) => 'N',
            (PieceColor::White, PieceKind::Pawn) => 'P',
            (PieceColor::Black, PieceKind::King) => 'k',
            (PieceColor::Black, PieceKind::Queen) => 'q',
            (PieceColor::Black, PieceKind::Rook) => 'r',
            (PieceColor::Black, PieceKind::Bishop) => 'b',
            (PieceColor::Black, PieceKind::Knight) => 'n',
            (PieceColor::Black, PieceKind::Pawn) => 'p',
        }
    }

    /// Decode a FEN letter. Exactly the twelve piece letters yield a piece;
    /// any other character yields nothing, never a default piece.
    pub fn from_fen(c: char) -> (r: Option<Piece>)
        ensures
            r == char_piece(c),
    {
        match c {
            'K' => Some(Piece { color: PieceColor::White, kind: PieceKind::King }),
            'Q' => Some(Piece { color: PieceColor::White, kind: PieceKind::Queen }),
            'R' => Some(Piece { color: PieceColor::White, kind: PieceKind::Rook }),
            'B' => Some(Piece { color: PieceColor::White, kind: PieceKind::Bishop }),
            'N' => Some(Piece { color: PieceColor::White, kind: PieceKind::Knight }),
            'P' => Some(Piece { color: PieceColor::White, kind: PieceKind::Pawn }),
            'k' => Some(Piece { color: PieceColor::Black, kind: PieceKind::King }),
            'q' => Some(Piece { color: PieceColor::Black, kind: PieceKind::Queen }),
            'r' => Some(Piece { color: PieceColor::Black, kind: PieceKind::Rook }),
            'b' => Some(Piece { color: PieceColor::Black, kind: PieceKind::Bishop }),
            'n' => Some(Piece { color: PieceColor::Black, kind: PieceKind::Knight }),
            'p' => Some(Piece { color: PieceColor::Black, kind: PieceKind::Pawn }),
            _ => None,
        }
    }
}

/// Law: decoding the encoding of any piece returns that piece, for each of
/// the twelve valid pieces.
pub proof fn lemma_piece_fen_round_trip(p: Piece)
    ensures
        char_piece(piece_char(p)) == Some(p),
{
}

/// Law: a character outside the twelve FEN piece letters decodes to nothing.
pub proof fn lemma_piece_letters(c: char)
    ensures
        char_piece(c) is Some <==> (c == 'K' || c == 'Q' || c == 'R' || c == 'B' || c == 'N'
            || c == 'P' || c == 'k' || c == 'q' || c == 'r' || c == 'b' || c == 'n' || c == 'p'),
{
}

/// Law: exchanging colors twice returns the color it started from.
pub proof fn lemma_opposite_involution(c: PieceColor)
    ensures
        opposite_color(opposite_color(c)) == c,
{
}

} // verus!
