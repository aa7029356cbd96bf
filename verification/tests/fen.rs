use chessman::Board;
use chessman::FenError;

#[test]
fn test_error_messages() {
    assert_eq!(
        FenError::MissingFields.message(),
        "expected board and side-to-move fields"
    );
    assert_eq!(FenError::WrongRankCount.message(), "wrong rank count: expected 8 ranks");
    assert_eq!(
        FenError::BadRankWidth { rank: 8 }.message(),
        "rank does not expand to 8 squares (rank 8)"
    );
    assert_eq!(
        FenError::UnknownPiece { ch: 'X' }.message(),
        "unknown piece character 'X'"
    );
    assert_eq!(FenError::InvalidSideToMove.message(), "invalid side to move");
}

#[test]
fn test_error_message_of_failed_decode() {
    let err = Board::from_fen("9/8/8/8/8/8/8/8 w").unwrap_err();
    assert_eq!(err.message(), "rank does not expand to 8 squares (rank 8)");
    let err = Board::from_fen("8/8/8/8/8/8/8/7X w").unwrap_err();
    assert_eq!(err.message(), "unknown piece character 'X'");
}

#[test]
fn test_too_many_rank_groups() {
    assert_eq!(Board::from_fen("8/8/8/8/8/8/8/8/8 w"), Err(FenError::WrongRankCount));
}

#[test]
fn test_empty_and_whitespace_inputs() {
    assert_eq!(Board::from_fen(""), Err(FenError::MissingFields));
    assert_eq!(Board::from_fen("   "), Err(FenError::MissingFields));
    assert_eq!(Board::from_fen("8/8/8/8/8/8/8/8"), Err(FenError::MissingFields));
    assert_eq!(Board::from_fen("8/8/8/8/8/8/8/8   "), Err(FenError::MissingFields));
}

#[test]
fn test_side_token_must_be_exact() {
    assert_eq!(Board::from_fen("8/8/8/8/8/8/8/8 white"), Err(FenError::InvalidSideToMove));
    assert_eq!(Board::from_fen("8/8/8/8/8/8/8/8 W"), Err(FenError::InvalidSideToMove));
    assert!(Board::from_fen("8/8/8/8/8/8/8/8 b").is_ok());
}

#[test]
fn test_rank_count_checked_before_width() {
    assert_eq!(Board::from_fen("9/8/8/8/8/8/8 w"), Err(FenError::WrongRankCount));
}

#[test]
fn test_width_checked_before_characters() {
    assert_eq!(Board::from_fen("X/8/8/8/8/8/8/9 w"), Err(FenError::BadRankWidth { rank: 8 }));
}

#[test]
fn test_characters_checked_before_side() {
    assert_eq!(
        Board::from_fen("8/8/8/8/8/8/8/7X x"),
        Err(FenError::UnknownPiece { ch: 'X' })
    );
}

#[test]
fn test_empty_rank_group_is_a_width_error() {
    assert_eq!(Board::from_fen("8//8/8/8/8/8 w"), Err(FenError::WrongRankCount));
    assert_eq!(Board::from_fen("8//8/8/8/8/8/8 w"), Err(FenError::BadRankWidth { rank: 7 }));
}
