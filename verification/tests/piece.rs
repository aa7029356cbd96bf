use chessman::Piece;
use chessman::PieceColor;
use chessman::PieceKind;

fn all_pieces() -> Vec<Piece> {
    let mut pieces = Vec::new();
    for color in [PieceColor::White, PieceColor::Black] {
        for kind in [
            PieceKind::King,
            PieceKind::Queen,
            PieceKind::Rook,
            PieceKind::Bishop,
            PieceKind::Knight,
            PieceKind::Pawn,
        ] {
            pieces.push(Piece::new(color, kind));
        }
    }
    pieces
}

#[test]
fn test_decode_encode_round_trip_all_pieces() {
    let pieces = all_pieces();
    assert_eq!(pieces.len(), 12);
    for piece in pieces {
        assert_eq!(Piece::from_fen(piece.to_fen()), Some(piece));
    }
}

#[test]
fn test_encode_exact_letters() {
    assert_eq!(Piece::new(PieceColor::White, PieceKind::King).to_fen(), 'K');
    assert_eq!(Piece::new(PieceColor::White, PieceKind::Pawn).to_fen(), 'P');
    assert_eq!(Piece::new(PieceColor::Black, PieceKind::Queen).to_fen(), 'q');
    assert_eq!(Piece::new(PieceColor::Black, PieceKind::Knight).to_fen(), 'n');
}

#[test]
fn test_decode_rejects_other_characters() {
    assert_eq!(Piece::from_fen('Z'), None);
    assert_eq!(Piece::from_fen('x'), None);
    assert_eq!(Piece::from_fen('0'), None);
    assert_eq!(Piece::from_fen('8'), None);
    assert_eq!(Piece::from_fen(' '), None);
    assert_eq!(Piece::from_fen('/'), None);
}

#[test]
fn test_decode_exact_pieces() {
    assert_eq!(
        Piece::from_fen('q'),
        Some(Piece::new(PieceColor::Black, PieceKind::Queen))
    );
    assert_eq!(
        Piece::from_fen('R'),
        Some(Piece::new(PieceColor::White, PieceKind::Rook))
    );
}

#[test]
fn test_opposite_is_an_involution() {
    assert_eq!(PieceColor::White.opposite(), PieceColor::Black);
    assert_eq!(PieceColor::Black.opposite(), PieceColor::White);
    for color in [PieceColor::White, PieceColor::Black] {
        assert_eq!(color.opposite().opposite(), color);
    }
}
