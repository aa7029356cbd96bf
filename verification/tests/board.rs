use chessman::Board;
use chessman::FenError;
use chessman::Piece;
use chessman::PieceColor;
use chessman::PieceKind;
use chessman::Square;

#[test]
fn test_board_new() {
    let board = Board::new();
    for index in 0..64 {
        let square = Square::from_index(index).unwrap();
        assert_eq!(board.piece_at(square), None);
    }
    assert_eq!(board.side_to_move(), PieceColor::White);
}

#[test]
fn test_board_set_and_get_piece() {
    let mut board = Board::new();
    let square = Square::from_rank_and_file(0, 0).unwrap();
    let piece = Piece::new(PieceColor::White, PieceKind::Rook);
    board.set_piece_at(square, Some(piece));
    assert_eq!(board.piece_at(square), Some(piece));
}

#[test]
fn test_board_startpos() {
    let board = Board::startpos();
    assert_eq!(
        board.piece_at(Square::from_rank_and_file(0, 0).unwrap()),
        Some(Piece::new(PieceColor::White, PieceKind::Rook))
    );
    assert_eq!(
        board.piece_at(Square::from_rank_and_file(7, 4).unwrap()),
        Some(Piece::new(PieceColor::Black, PieceKind::King))
    );
    assert_eq!(
        board.piece_at(Square::from_rank_and_file(1, 3).unwrap()),
        Some(Piece::new(PieceColor::White, PieceKind::Pawn))
    );
    assert_eq!(
        board.piece_at(Square::from_rank_and_file(6, 5).unwrap()),
        Some(Piece::new(PieceColor::Black, PieceKind::Pawn))
    );
    assert_eq!(board.piece_at(Square::from_rank_and_file(4, 4).unwrap()), None);
}

#[test]
fn test_board_display() {
    let board = Board::startpos();
    let board_str = board.render();
    let mut expected_str = String::new();
    expected_str.push_str("8 r n b q k b n r \n");
    expected_str.push_str("7 p p p p p p p p \n");
    expected_str.push_str("6 . . . . . . . . \n");
    expected_str.push_str("5 . . . . . . . . \n");
    expected_str.push_str("4 . . . . . . . . \n");
    expected_str.push_str("3 . . . . . . . . \n");
    expected_str.push_str("2 P P P P P P P P \n");
    expected_str.push_str("1 R N B Q K B N R \n");
    expected_str.push_str("  a b c d e f g h\n");
    assert_eq!(board_str, expected_str);
}

#[test]
fn test_startpos_to_fen_text() {
    let board = Board::startpos();
    assert_eq!(board.to_fen(), "rnbqkbnr/pppppppp/8/8/8/8/PPPPPPPP/RNBQKBNR");
}

#[test]
fn test_startpos_fen_round_trip() {
    let board = Board::startpos();
    let mut text = board.to_fen();
    text.push_str(" w");
    let decoded = Board::from_fen(&text).unwrap();
    assert_eq!(decoded, Board::startpos());
}

#[test]
fn test_from_fen_startpos() {
    let board = Board::from_fen("rnbqkbnr/pppppppp/8/8/8/8/PPPPPPPP/RNBQKBNR w").unwrap();
    assert_eq!(board, Board::startpos());
    assert_eq!(board.side_to_move(), PieceColor::White);
}

#[test]
fn test_from_fen_two_kings() {
    let board = Board::from_fen("8/8/8/3k4/8/8/4K3/8 b").unwrap();
    assert_eq!(
        board.piece_at(Square::from_rank_and_file(4, 3).unwrap()),
        Some(Piece::new(PieceColor::Black, PieceKind::King))
    );
    assert_eq!(
        board.piece_at(Square::from_rank_and_file(1, 4).unwrap()),
        Some(Piece::new(PieceColor::White, PieceKind::King))
    );
    assert_eq!(board.side_to_move(), PieceColor::Black);
    for index in 0..64 {
        let square = Square::from_index(index).unwrap();
        if index != 4 * 8 + 3 && index != 8 + 4 {
            assert_eq!(board.piece_at(square), None);
        }
    }
}

#[test]
fn test_from_fen_malformed_inputs_fail_distinctly() {
    assert_eq!(Board::from_fen("invalid_fen_string"), Err(FenError::MissingFields));
    assert_eq!(Board::from_fen("8/8/8/8/8/8/8 w"), Err(FenError::WrongRankCount));
    assert_eq!(Board::from_fen("9/8/8/8/8/8/8/8 w"), Err(FenError::BadRankWidth { rank: 8 }));
    assert_eq!(
        Board::from_fen("8/8/8/8/8/8/8/7X w"),
        Err(FenError::UnknownPiece { ch: 'X' })
    );
    assert_eq!(Board::from_fen("8/8/8/8/8/8/8/8 x"), Err(FenError::InvalidSideToMove));
}

#[test]
fn test_from_fen_ignores_trailing_fields() {
    let board = Board::from_fen("rnbqkbnr/pppppppp/8/8/8/8/PPPPPPPP/RNBQKBNR w KQkq - 0 1").unwrap();
    assert_eq!(board, Board::startpos());
}

#[test]
fn test_from_fen_rank_width_names_inner_rank() {
    assert_eq!(Board::from_fen("8/8/8/8/p7p/8/8/8 w"), Err(FenError::BadRankWidth { rank: 4 }));
}

#[test]
fn test_from_fen_places_single_pawn() {
    let board = Board::from_fen("8/8/8/8/8/8/8/4P3 w").unwrap();
    assert_eq!(
        board.piece_at(Square::from_rank_and_file(0, 4).unwrap()),
        Some(Piece::new(PieceColor::White, PieceKind::Pawn))
    );
    assert_eq!(board.piece_at(Square::from_rank_and_file(0, 3).unwrap()), None);
    assert_eq!(board.piece_at(Square::from_rank_and_file(0, 5).unwrap()), None);
}

#[test]
fn test_empty_board_render_and_fen() {
    let board = Board::new();
    assert_eq!(board.to_fen(), "8/8/8/8/8/8/8/8");
    let mut expected_str = String::new();
    for rank_line in ["8", "7", "6", "5", "4", "3", "2", "1"] {
        expected_str.push_str(rank_line);
        expected_str.push_str(" . . . . . . . . \n");
    }
    expected_str.push_str("  a b c d e f g h\n");
    assert_eq!(board.render(), expected_str);
}

#[test]
fn test_overwriting_a_slot_with_empty() {
    let mut board = Board::startpos();
    let square = Square::from_rank_and_file(0, 0).unwrap();
    board.set_piece_at(square, None);
    assert_eq!(board.piece_at(square), None);
    assert_ne!(board, Board::startpos());
}

#[test]
fn test_board_clone_is_equal() {
    let board = Board::startpos();
    let copy = board.clone();
    assert_eq!(copy, board);
}
