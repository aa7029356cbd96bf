use chessman::ParseSquareError;
use chessman::Square;

#[test]
fn test_rank_file_round_trip_all_squares() {
    for rank in 0..8u8 {
        for file in 0..8u8 {
            let square = Square::from_rank_and_file(rank, file).unwrap();
            assert_eq!(square.rank(), rank);
            assert_eq!(square.file(), file);
            assert_eq!(square.index(), rank as usize * 8 + file as usize);
        }
    }
}

#[test]
fn test_index_round_trip_all_squares() {
    for index in 0..64 {
        let square = Square::from_index(index).unwrap();
        assert_eq!(square.index(), index);
    }
}

#[test]
fn test_out_of_range_construction_fails() {
    assert_eq!(Square::from_rank_and_file(8, 0), None);
    assert_eq!(Square::from_rank_and_file(0, 8), None);
    assert_eq!(Square::from_rank_and_file(255, 255), None);
    assert_eq!(Square::from_index(64), None);
    assert_eq!(Square::from_index(usize::MAX), None);
}

#[test]
fn test_from_algebraic_valid() {
    let square = Square::from_algebraic("a1").unwrap();
    assert_eq!(square.rank(), 0);
    assert_eq!(square.file(), 0);
    let square = Square::from_algebraic("e2").unwrap();
    assert_eq!(square.rank(), 1);
    assert_eq!(square.file(), 4);
    let square = Square::from_algebraic("h8").unwrap();
    assert_eq!(square.index(), 63);
}

#[test]
fn test_from_algebraic_rejects_malformed_text() {
    assert_eq!(Square::from_algebraic(""), Err(ParseSquareError::WrongLength));
    assert_eq!(Square::from_algebraic("e2x"), Err(ParseSquareError::WrongLength));
    assert_eq!(Square::from_algebraic("i5"), Err(ParseSquareError::InvalidFileChar));
    assert_eq!(Square::from_algebraic("a9"), Err(ParseSquareError::InvalidRankChar));
    assert_eq!(Square::from_algebraic("a0"), Err(ParseSquareError::InvalidRankChar));
}

#[test]
fn test_to_algebraic_exact_values() {
    assert_eq!(Square::from_rank_and_file(0, 0).unwrap().to_algebraic(), "a1");
    assert_eq!(Square::from_rank_and_file(7, 7).unwrap().to_algebraic(), "h8");
    assert_eq!(Square::from_rank_and_file(1, 4).unwrap().to_algebraic(), "e2");
}

#[test]
fn test_algebraic_round_trip_all_squares() {
    for index in 0..64 {
        let square = Square::from_index(index).unwrap();
        let text = square.to_algebraic();
        let back = Square::from_algebraic(&text).unwrap();
        assert_eq!(back.index(), index);
    }
}
