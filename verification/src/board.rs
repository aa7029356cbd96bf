//! The board: a fixed 64-slot occupancy grid indexed by squares, plus a
//! side-to-move flag, with construction helpers and a human-readable
//! rendering.

use crate::fen::FenError;
use crate::fen::board_fen;
use crate::fen::board_squares_of;
use crate::fen::check_widths;
use crate::fen::digit_of_run;
use crate::fen::empty_run;
use crate::fen::fen_digit_value;
use crate::fen::fen_from;
use crate::fen::first_bad_char_group;
use crate::fen::first_bad_width_group;
use crate::fen::flush_run;
use crate::fen::gchars_ok;
use crate::fen::gexpand;
use crate::fen::gfirst_bad;
use crate::fen::group_start;
use crate::fen::gwidth;
use crate::fen::has_two_fields;
use crate::fen::is_space_char;
use crate::fen::lemma_gexpand_len;
use crate::fen::lemma_gwidth_nonneg;
use crate::fen::lemma_no_bad_width;
use crate::fen::parse_fen;
use crate::fen::rank_fen_from;
use crate::fen::ranks_end;
use crate::fen::ranks_field;
use crate::fen::ranks_start;
use crate::fen::side_end;
use crate::fen::side_field;
use crate::fen::side_start;
use crate::fen::skip_spaces;
use crate::fen::slash_count_from;
use crate::fen::token_end;
use crate::piece::char_piece;
use crate::piece::Piece;
use crate::piece::PieceColor;
use crate::piece::PieceKind;
use crate::piece::piece_char;
use crate::square::Square;
use crate::square::rank_char;
use crate::square::char_of_rank;
use crate::square::square_index;
use crate::text::push_char;
use vstd::prelude::*;

verus! {

/// A chess position: 64 optionally occupied slots, indexed by the linear
/// square index, and the color to move next.
#[derive(Debug)]
pub struct Board {
    squares: Vec<Option<Piece>>,
    side_to_move: PieceColor,
}

/// The piece that the standard initial position places on the back rank at
/// the given file: Rook, Knight, Bishop, Queen, King, Bishop, Knight, Rook.
pub open spec fn back_rank_kind(file: int) -> PieceKind {
    if file == 0 || file == 7 {
        PieceKind::Rook
    } else if file == 1 || file == 6 {
        PieceKind::Knight
    } else if file == 2 || file == 5 {
        PieceKind::Bishop
    } else if file == 3 {
        PieceKind::Queen
    } else {
        PieceKind::King
    }
}

/// The slot that the standard initial position holds at the given linear
/// index: White on ranks 0 and 1, Black on ranks 6 and 7, empty between.
pub open spec fn startpos_slot(i: int) -> Option<Piece> {
    let rank = i / 8;
    let file = i % 8;
    if rank == 0 {
        Some(Piece { color: PieceColor::White, kind: back_rank_kind(file) })
    } else if rank == 1 {
        Some(Piece { color: PieceColor::White, kind: PieceKind::Pawn })
    } else if rank == 6 {
        Some(Piece { color: PieceColor::Black, kind: PieceKind::Pawn })
    } else if rank == 7 {
        Some(Piece { color: PieceColor::Black, kind: back_rank_kind(file) })
    } else {
        None
    }
}

impl Board {
    #[verifier::type_invariant]
    spec fn inv(self) -> bool {
        self.squares@.len() == 64
    }

    /// The sequence of the 64 slots, linear square index order (a1 first).
    pub closed spec fn squares_view(self) -> Seq<Option<Piece>> {
        self.squares@
    }

    /// The color to move next.
    pub closed spec fn side_view(self) -> PieceColor {
        self.side_to_move
    }

    /// An empty board: all 64 slots empty, White to move.
    pub fn new() -> (r: Board)
        ensures
            r.squares_view().len() == 64,
            forall|i: int| 0 <= i < 64 ==> r.squares_view()[i] is None,
            r.side_view() == PieceColor::White,
    {
        let mut squares: Vec<Option<Piece>> = Vec::new();
        let mut n: usize = 0;
        while n < 64
            invariant
                n <= 64,
                squares@.len() == n,
                forall|i: int| 0 <= i < n ==> squares@[i] is None,
            decreases 64 - n,
        {
            squares.push(None);
            n += 1;
        }
        Board { squares, side_to_move: PieceColor::White }
    }

    /// The piece at the given square, or nothing for an empty slot.
    pub fn piece_at(&self, square: Square) -> (r: Option<Piece>)
        ensures
            r == self.squares_view()[square@],
    {
        proof {
            use_type_invariant(self);
        }
        self.squares[square.index()]
    }

    /// The color to move next.
    pub fn side_to_move(&self) -> (r: PieceColor)
        ensures
            r == self.side_view(),
    {
        self.side_to_move
    }

    /// Overwrite the slot at the given square; every other slot and the
    /// side to move are unchanged.
    pub fn set_piece_at(&mut self, square: Square, piece: Option<Piece>)
        ensures
            final(self).squares_view() == old(self).squares_view().update(square@, piece),
            final(self).side_view() == old(self).side_view(),
    {
        proof {
            use_type_invariant(&*self);
        }
        let i = square.index();
        self.squares[i] = piece;
    }

    /// The standard initial chess position, White to move.
    pub fn startpos() -> (r: Board)
        ensures
            r.squares_view().len() == 64,
            forall|i: int| 0 <= i < 64 ==> r.squares_view()[i] == startpos_slot(i),
            r.side_view() == PieceColor::White,
    {
        let mut board = Board::new();
        let mut file: u8 = 0;
        while file < 8
            invariant
                file <= 8,
                board.squares_view().len() == 64,
                board.side_view() == PieceColor::White,
                forall|i: int|
                    0 <= i < 64 ==> board.squares_view()[i] == (if i % 8 < file as int && (i / 8
                        == 0 || i / 8 == 1 || i / 8 == 6 || i / 8 == 7) {
                        startpos_slot(i)
                    } else {
                        None::<Piece>
                    }),
            decreases 8 - file,
        {
            let kind = back_rank_piece(file);
            board.set_piece_at(
                Square::from_rank_and_file(0, file).unwrap(),
                Some(Piece::new(PieceColor::White, kind)),
            );
            board.set_piece_at(
                Square::from_rank_and_file(1, file).unwrap(),
                Some(Piece::new(PieceColor::White, PieceKind::Pawn)),
            );
            board.set_piece_at(
                Square::from_rank_and_file(7, file).unwrap(),
                Some(Piece::new(PieceColor::Black, kind)),
            );
            board.set_piece_at(
                Square::from_rank_and_file(6, file).unwrap(),
                Some(Piece::new(PieceColor::Black, PieceKind::Pawn)),
            );
            file += 1;
        }
        board
    }
}

/// The character a slot shows in the human-readable rendering: the FEN
/// letter of its piece, or '.' for an empty slot.
pub open spec fn cell_char(s: Option<Piece>) -> char {
    match s {
        None => '.',
        Some(p) => piece_char(p),
    }
}

/// One rendered rank line from the given file onward: each remaining cell
/// followed by a space, then the terminating newline.
pub open spec fn render_rank_from(sq: Seq<Option<Piece>>, rank: int, file: int) -> Seq<char>
    decreases 8 - file,
{
    if file >= 8 {
        seq!['\n']
    } else {
        seq![cell_char(sq[square_index(rank, file)]), ' '] + render_rank_from(sq, rank, file + 1)
    }
}

/// The rendering from the given top-to-bottom line onward: rank lines for
/// ranks 8 down to 1, each prefixed with its 1-based number, then the file
/// legend line.
pub open spec fn render_from(sq: Seq<Option<Piece>>, line: int) -> Seq<char>
    decreases 8 - line,
{
    if line >= 8 {
        "  a b c d e f g h\n"@
    } else {
        seq![rank_char(7 - line), ' '] + render_rank_from(sq, 7 - line, 0) + render_from(
            sq,
            line + 1,
        )
    }
}

/// The whole human-readable rendering of a board's slots.
pub open spec fn board_render(sq: Seq<Option<Piece>>) -> Seq<char> {
    render_from(sq, 0)
}

impl Board {
    /// Render the board as nine text lines: ranks 8 down to 1, each cell a
    /// piece letter or '.', then the legend line naming the files.
    pub fn render(&self) -> (r: String)
        ensures
            r@ == board_render(self.squares_view()),
    {
        proof {
            use_type_invariant(self);
        }
        let mut out = String::new();
        let mut line: u8 = 0;
        while line < 8
            invariant
                line <= 8,
                self.squares@.len() == 64,
                out@ + render_from(self.squares@, line as int) == board_render(self.squares@),
            decreases 8 - line,
        {
            let ghost out0 = out@;
            let rank = 7 - line;
            push_char(&mut out, char_of_rank(rank));
            push_char(&mut out, ' ');
            let mut f: u8 = 0;
            proof {
                assert(out@ + (render_rank_from(self.squares@, rank as int, 0) + render_from(
                    self.squares@,
                    line as int + 1,
                )) =~= out0 + render_from(self.squares@, line as int));
            }
            while f < 8
                invariant
                    f <= 8,
                    line < 8,
                    rank == 7 - line,
                    self.squares@.len() == 64,
                    out@ + (render_rank_from(self.squares@, rank as int, f as int) + render_from(
                        self.squares@,
                        line as int + 1,
                    )) == board_render(self.squares@),
                decreases 8 - f,
            {
                let ghost out1 = out@;
                let sq = Square::from_rank_and_file(rank, f).unwrap();
                let c = match self.piece_at(sq) {
                    None => '.',
                    Some(p) => p.to_fen(),
                };
                push_char(&mut out, c);
                push_char(&mut out, ' ');
                proof {
                    assert(out@ + (render_rank_from(self.squares@, rank as int, f as int + 1)
                        + render_from(self.squares@, line as int + 1)) =~= out1 + (render_rank_from(
                        self.squares@,
                        rank as int,
                        f as int,
                    ) + render_from(self.squares@, line as int + 1)));
                }
                f += 1;
            }
            let ghost out2 = out@;
            push_char(&mut out, '\n');
            proof {
                assert(out@ + render_from(self.squares@, line as int + 1) =~= out2
                    + (render_rank_from(self.squares@, rank as int, 8) + render_from(
                    self.squares@,
                    line as int + 1,
                )));
            }
            line += 1;
        }
        out.append("  a b c d e f g h\n");
        out
    }
}

impl Board {
    /// Encode the board's slots as FEN board text: ranks 8 down to 1
    /// separated by '/', runs of consecutive empty files as digits.
    pub fn to_fen(&self) -> (r: String)
        ensures
            r@ == board_fen(self.squares_view()),
    {
        proof {
            use_type_invariant(self);
        }
        let ghost sq = self.squares@;
        let mut out = String::new();
        let mut gi: u8 = 0;
        while gi < 8
            invariant
                gi <= 8,
                sq == self.squares@,
                self.squares@.len() == 64,
                out@ + fen_from(sq, gi as int) == board_fen(sq),
            decreases 8 - gi,
        {
            let rank = 7 - gi;
            let ghost sep: Seq<char> = if gi == 7 {
                seq![]
            } else {
                seq!['/']
            };
            let mut run: u8 = 0;
            let mut f: u8 = 0;
            proof {
                assert(out@ + (rank_fen_from(sq, rank as int, 0, 0) + (sep + fen_from(
                    sq,
                    gi as int + 1,
                ))) =~= out@ + fen_from(sq, gi as int));
            }
            while f < 8
                invariant
                    f <= 8,
                    run <= f,
                    gi < 8,
                    rank == 7 - gi,
                    sq == self.squares@,
                    self.squares@.len() == 64,
                    sep == (if gi == 7 {
                        Seq::<char>::empty()
                    } else {
                        seq!['/']
                    }),
                    out@ + (rank_fen_from(sq, rank as int, f as int, run as int) + (sep + fen_from(
                        sq,
                        gi as int + 1,
                    ))) == board_fen(sq),
                decreases 8 - f,
            {
                let here = Square::from_rank_and_file(rank, f).unwrap();
                match self.piece_at(here) {
                    None => {
                        run += 1;
                    },
                    Some(p) => {
                        let ghost out0 = out@;
                        if run > 0 {
                            push_char(&mut out, digit_of_run(run));
                        }
                        push_char(&mut out, p.to_fen());
                        proof {
                            assert(out@ =~= out0 + flush_run(run as int) + seq![piece_char(p)]);
                            assert(out@ + (rank_fen_from(sq, rank as int, f as int + 1, 0) + (sep
                                + fen_from(sq, gi as int + 1))) =~= out0 + (rank_fen_from(
                                sq,
                                rank as int,
                                f as int,
                                run as int,
                            ) + (sep + fen_from(sq, gi as int + 1))));
                        }
                        run = 0;
                    },
                }
                f += 1;
            }
            let ghost out1 = out@;
            if run > 0 {
                push_char(&mut out, digit_of_run(run));
            }
            if gi < 7 {
                push_char(&mut out, '/');
            }
            proof {
                assert(out@ =~= out1 + flush_run(run as int) + sep);
                assert(out@ + fen_from(sq, gi as int + 1) =~= out1 + (rank_fen_from(
                    sq,
                    rank as int,
                    8,
                    run as int,
                ) + (sep + fen_from(sq, gi as int + 1))));
            }
            gi += 1;
        }
        out
    }
}

/// Walk the eight rank groups of a board field whose widths all check out,
/// placing each decoded piece on the board; report the first character that
/// is neither a digit nor a piece letter.
fn place_groups(g: &str, starts: &Vec<usize>, board: &mut Board) -> (r: Result<(), FenError>)
    requires
        old(board).squares_view().len() == 64,
        forall|i: int| 0 <= i < 64 ==> old(board).squares_view()[i] is None,
        first_bad_width_group(g@, 0) is None,
        starts@.len() == 8,
        forall|k: int| 0 <= k < 8 ==> starts@[k] as int == group_start(g@, k) && starts@[k]
            <= g@.len(),
    ensures
        final(board).side_view() == old(board).side_view(),
        final(board).squares_view().len() == 64,
        match r {
            Ok(_) => first_bad_char_group(g@, 0) is None && forall|i: int|
                0 <= i < 64 ==> final(board).squares_view()[i] == board_squares_of(g@)[i],
            Err(e) => first_bad_char_group(g@, 0) matches Some(k) && e == (FenError::UnknownPiece {
                ch: gfirst_bad(g@, group_start(g@, k)),
            }),
        },
{
    let m = g.unicode_len();
    let mut k: u8 = 0;
    while k < 8
        invariant
            k <= 8,
            m == g@.len(),
            first_bad_width_group(g@, 0) is None,
            starts@.len() == 8,
            forall|k2: int| 0 <= k2 < 8 ==> starts@[k2] as int == group_start(g@, k2)
                && starts@[k2] <= g@.len(),
            board.squares_view().len() == 64,
            board.side_view() == old(board).side_view(),
            first_bad_char_group(g@, 0) == first_bad_char_group(g@, k as int),
            forall|i: int|
                0 <= i < 64 ==> board.squares_view()[i] == (if 7 - i / 8 < k as int {
                    gexpand(g@, group_start(g@, 7 - i / 8))[i % 8]
                } else {
                    None::<Piece>
                }),
        decreases 8 - k,
    {
        let rank: u8 = 7 - k;
        let start: usize = starts[k as usize];
        let mut j: usize = start;
        let mut f: u8 = 0;
        proof {
            lemma_no_bad_width(g@, 0);
            lemma_gexpand_len(g@, start as int);
            assert(gwidth(g@, start as int) == 8);
            assert(gexpand(g@, j as int) =~= gexpand(g@, start as int).skip(0));
        }
        while j < m && g.get_char(j) != '/'
            invariant
                start <= j,
                j <= m,
                m == g@.len(),
                f <= 8,
                rank == 7 - k,
                k < 8,
                start as int == group_start(g@, k as int),
                gwidth(g@, start as int) == 8,
                gexpand(g@, start as int).len() == 8,
                f as int == 8 - gwidth(g@, j as int),
                gexpand(g@, j as int) == gexpand(g@, start as int).skip(f as int),
                gchars_ok(g@, start as int) == gchars_ok(g@, j as int),
                gfirst_bad(g@, start as int) == gfirst_bad(g@, j as int),
                first_bad_char_group(g@, 0) == first_bad_char_group(g@, k as int),
                board.squares_view().len() == 64,
                board.side_view() == old(board).side_view(),
                forall|i: int|
                    0 <= i < 64 ==> board.squares_view()[i] == (if 7 - i / 8 < k as int {
                        gexpand(g@, group_start(g@, 7 - i / 8))[i % 8]
                    } else if i / 8 == rank as int && i % 8 < f as int {
                        gexpand(g@, start as int)[i % 8]
                    } else {
                        None::<Piece>
                    }),
            decreases m - j,
        {
            let c = g.get_char(j);
            match fen_digit_value(c) {
                Some(d) => {
                    proof {
                        lemma_gwidth_nonneg(g@, j as int + 1);
                        lemma_gexpand_len(g@, j as int + 1);
                        assert(f as int + d as int <= 8);
                        assert(gexpand(g@, j as int) == empty_run(d as int) + gexpand(
                            g@,
                            j as int + 1,
                        ));
                        assert forall|t: int|
                            #![trigger gexpand(g@, j as int + 1)[t]]
                            0 <= t < gexpand(g@, j as int + 1).len() implies gexpand(
                            g@,
                            j as int + 1,
                        )[t] == gexpand(g@, start as int).skip(f as int + d as int)[t] by {
                            assert(gexpand(g@, j as int + 1)[t] == gexpand(g@, j as int)[d as int
                                + t]);
                            assert(gexpand(g@, j as int)[d as int + t] == gexpand(
                                g@,
                                start as int,
                            )[f as int + d as int + t]);
                        }
                        assert(gexpand(g@, j as int + 1) =~= gexpand(g@, start as int).skip(
                            f as int + d as int,
                        ));
                        assert forall|t: int| f as int <= t < f as int + d as int implies gexpand(
                            g@,
                            start as int,
                        )[t] is None by {
                            assert(gexpand(g@, start as int)[t] == gexpand(g@, j as int)[t
                                - f as int]);
                            assert(gexpand(g@, j as int)[t - f as int] == empty_run(d as int)[t
                                - f as int]);
                        }
                    }
                    f += d;
                    j += 1;
                },
                None => {
                    match Piece::from_fen(c) {
                        Some(p) => {
                            proof {
                                lemma_gwidth_nonneg(g@, j as int + 1);
                                lemma_gexpand_len(g@, j as int + 1);
                                assert(f < 8);
                                assert(gexpand(g@, j as int) == seq![char_piece(c)] + gexpand(
                                    g@,
                                    j as int + 1,
                                ));
                                assert(gexpand(g@, start as int)[f as int] == gexpand(
                                    g@,
                                    j as int,
                                )[0]);
                                assert forall|t: int|
                                    #![trigger gexpand(g@, j as int + 1)[t]]
                                    0 <= t < gexpand(g@, j as int + 1).len() implies gexpand(
                                    g@,
                                    j as int + 1,
                                )[t] == gexpand(g@, start as int).skip(f as int + 1)[t] by {
                                    assert(gexpand(g@, j as int + 1)[t] == gexpand(g@, j as int)[1
                                        + t]);
                                    assert(gexpand(g@, j as int)[1 + t] == gexpand(
                                        g@,
                                        start as int,
                                    )[f as int + 1 + t]);
                                }
                                assert(gexpand(g@, j as int + 1) =~= gexpand(g@, start as int).skip(
                                    f as int + 1,
                                ));
                                crate::square::lemma_square_round_trip(rank as int, f as int);
                            }
                            let here = Square::from_rank_and_file(rank, f).unwrap();
                            board.set_piece_at(here, Some(p));
                            f += 1;
                            j += 1;
                        },
                        None => {
                            proof {
                                assert(!gchars_ok(g@, j as int));
                                assert(gfirst_bad(g@, j as int) == c);
                                assert(first_bad_char_group(g@, k as int) == Some(k as int));
                            }
                            return Err(FenError::UnknownPiece { ch: c });
                        },
                    }
                },
            }
        }
        proof {
            assert(gwidth(g@, j as int) == 0);
            assert(f == 8);
            assert(gchars_ok(g@, start as int));
            assert(first_bad_char_group(g@, k as int) == first_bad_char_group(g@, k as int + 1));
        }
        k += 1;
    }
    proof {
        assert forall|i: int| 0 <= i < 64 implies board.squares_view()[i] == board_squares_of(
            g@,
        )[i] by {
            assert(0 <= 7 - i / 8 < 8);
        }
    }
    Ok(())
}

impl Board {
    /// Decode a FEN text of at least a board field and a side-to-move field
    /// (later fields are ignored) into a board, or the first diagnostic in
    /// the order rank count, rank widths, characters, side to move.
    pub fn from_fen(s: &str) -> (r: Result<Board, FenError>)
        ensures
            match (r, parse_fen(s@)) {
                (Ok(b), Ok(m)) => b.squares_view() == m.0 && b.side_view() == m.1
                    && b.squares_view().len() == 64,
                (Err(e1), Err(e2)) => e1 == e2,
                _ => false,
            },
    {
        let n = s.unicode_len();
        let mut i: usize = 0;
        while i < n && is_space_char(s.get_char(i))
            invariant
                i <= n,
                n == s@.len(),
                skip_spaces(s@, 0) == skip_spaces(s@, i as int),
            decreases n - i,
        {
            i += 1;
        }
        proof {
            assert(ranks_start(s@) == i as int);
        }
        if i == n {
            return Err(FenError::MissingFields);
        }
        let rs = i;
        while i < n && !is_space_char(s.get_char(i))
            invariant
                rs <= i,
                i <= n,
                n == s@.len(),
                token_end(s@, rs as int) == token_end(s@, i as int),
            decreases n - i,
        {
            i += 1;
        }
        let re = i;
        proof {
            assert(ranks_end(s@) == re as int);
        }
        while i < n && is_space_char(s.get_char(i))
            invariant
                re <= i,
                i <= n,
                n == s@.len(),
                skip_spaces(s@, re as int) == skip_spaces(s@, i as int),
            decreases n - i,
        {
            i += 1;
        }
        proof {
            assert(side_start(s@) == i as int);
        }
        if i == n {
            return Err(FenError::MissingFields);
        }
        let ss = i;
        while i < n && !is_space_char(s.get_char(i))
            invariant
                ss <= i,
                i <= n,
                n == s@.len(),
                token_end(s@, ss as int) == token_end(s@, i as int),
            decreases n - i,
        {
            i += 1;
        }
        let se = i;
        proof {
            assert(side_end(s@) == se as int);
            assert(has_two_fields(s@));
        }
        let g = s.substring_char(rs, re);
        proof {
            assert(g@ == ranks_field(s@));
        }
        let m = re - rs;
        let mut cnt: usize = 0;
        let mut j: usize = 0;
        while j < m
            invariant
                j <= m,
                m == g@.len(),
                cnt <= j,
                slash_count_from(g@, 0) == cnt + slash_count_from(g@, j as int),
            decreases m - j,
        {
            if g.get_char(j) == '/' {
                cnt += 1;
            }
            j += 1;
        }
        if cnt != 7 {
            return Err(FenError::WrongRankCount);
        }
        let starts = match check_widths(g) {
            Ok(v) => v,
            Err(e) => {
                return Err(e);
            },
        };
        let mut board = Board::new();
        match place_groups(g, &starts, &mut board) {
            Ok(_) => {},
            Err(e) => {
                return Err(e);
            },
        }
        let side_str = s.substring_char(ss, se);
        proof {
            assert(side_str@ == side_field(s@));
        }
        let color = if se - ss == 1 {
            let c = side_str.get_char(0);
            if c == 'w' {
                proof {
                    assert(side_str@ =~= seq!['w']);
                }
                PieceColor::White
            } else if c == 'b' {
                proof {
                    assert(side_str@ =~= seq!['b']);
                }
                PieceColor::Black
            } else {
                proof {
                    assert(side_field(s@) != seq!['w']) by {
                        if side_field(s@) == seq!['w'] {
                            assert(side_field(s@)[0] == 'w');
                        }
                    }
                    assert(side_field(s@) != seq!['b']) by {
                        if side_field(s@) == seq!['b'] {
                            assert(side_field(s@)[0] == 'b');
                        }
                    }
                }
                return Err(FenError::InvalidSideToMove);
            }
        } else {
            proof {
                assert(side_field(s@).len() != 1);
                assert(seq!['w'].len() == 1 && seq!['b'].len() == 1);
            }
            return Err(FenError::InvalidSideToMove);
        };
        board.side_to_move = color;
        proof {
            assert(board.squares_view() =~= board_squares_of(g@));
        }
        Ok(board)
    }
}

/// The back-rank piece kind for a file in 0..=7, as executable code.
fn back_rank_piece(file: u8) -> (r: PieceKind)
    requires
        file <= 7,
    ensures
        r == back_rank_kind(file as int),
{
    match file {
        0 => PieceKind::Rook,
        1 => PieceKind::Knight,
        2 => PieceKind::Bishop,
        3 => PieceKind::Queen,
        4 => PieceKind::King,
        5 => PieceKind::Bishop,
        6 => PieceKind::Knight,
        _ => PieceKind::Rook,
    }
}

impl Clone for Board {
    /// An exact copy: every slot and the side to move are preserved.
    fn clone(&self) -> (r: Board)
        ensures
            r.squares_view() == self.squares_view(),
            r.side_view() == self.side_view(),
    {
        proof {
            use_type_invariant(self);
        }
        let mut squares: Vec<Option<Piece>> = Vec::new();
        let mut i: usize = 0;
        while i < 64
            invariant
                i <= 64,
                self.squares@.len() == 64,
                squares@.len() == i,
                forall|j: int| 0 <= j < i ==> squares@[j] == self.squares@[j],
            decreases 64 - i,
        {
            squares.push(self.squares[i]);
            i += 1;
        }
        proof {
            assert(squares@ =~= self.squares@);
        }
        Board { squares, side_to_move: self.side_to_move }
    }
}

impl PartialEq for Board {
    /// Two boards are equal when every slot and the side to move agree.
    fn eq(&self, other: &Board) -> (r: bool) {
        proof {
            use_type_invariant(self);
            use_type_invariant(other);
        }
        if self.side_to_move != other.side_to_move {
            return false;
        }
        let mut i: usize = 0;
        while i < 64
            invariant
                i <= 64,
                self.squares@.len() == 64,
                other.squares@.len() == 64,
                forall|j: int| 0 <= j < i ==> self.squares@[j] == other.squares@[j],
            decreases 64 - i,
        {
            let same = match (self.squares[i], other.squares[i]) {
                (None, None) => true,
                (Some(a), Some(b)) => a == b,
                _ => false,
            };
            if !same {
                return false;
            }
            i += 1;
        }
        proof {
            assert(self.squares@ =~= other.squares@);
        }
        true
    }
}

impl vstd::std_specs::cmp::PartialEqSpecImpl for Board {
    open spec fn obeys_eq_spec() -> bool {
        true
    }

    open spec fn eq_spec(&self, other: &Board) -> bool {
        self.squares_view() == other.squares_view() && self.side_view() == other.side_view()
    }
}

impl Eq for Board {

}

} // verus!
