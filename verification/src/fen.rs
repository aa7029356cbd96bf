//! The FEN board-and-side text model: what a FEN text denotes, which texts
//! are refused and with which diagnostic, and what the encoder emits.
//!
//! A text holds at least two whitespace-separated fields. The first is the
//! board field: eight rank groups separated by '/', listed from rank 8 down
//! to rank 1, where a digit '1'..='8' covers that many empty files and any
//! other character covers one file and must be a piece letter. The second is
//! the side-to-move field, exactly "w" or "b". Later fields are ignored.

use crate::piece::Piece;
use crate::piece::PieceColor;
use crate::piece::char_piece;
use crate::piece::piece_char;
use crate::square::square_index;
use crate::text::push_char;
use vstd::prelude::*;

verus! {

/// Why a FEN text was refused.
#[derive(Clone, Copy, Debug, PartialEq, Eq, Structural)]
pub enum FenError {
    /// Fewer than two whitespace-separated fields were found.
    MissingFields,
    /// The board field does not hold exactly eight rank groups.
    WrongRankCount,
    /// The named rank (chess numbering, 8 at the top) does not expand to
    /// exactly eight files.
    BadRankWidth { rank: u8 },
    /// A rank group holds a character that is neither a digit nor a piece
    /// letter.
    UnknownPiece { ch: char },
    /// The side-to-move field is neither "w" nor "b".
    InvalidSideToMove,
}

/// Whether a character separates FEN fields.
pub open spec fn is_space(c: char) -> bool {
    c == ' ' || c == '\t' || c == '\n' || c == '\r'
}

/// The first position at or after `i` holding a non-space character, or the
/// length of the text.
pub open spec fn skip_spaces(s: Seq<char>, i: int) -> int
    decreases s.len() - i,
{
    if i >= s.len() || !is_space(s[i]) {
        i
    } else {
        skip_spaces(s, i + 1)
    }
}

/// The first position at or after `i` holding a space, or the length.
pub open spec fn token_end(s: Seq<char>, i: int) -> int
    decreases s.len() - i,
{
    if i >= s.len() || is_space(s[i]) {
        i
    } else {
        token_end(s, i + 1)
    }
}

/// Where the board field starts.
pub open spec fn ranks_start(s: Seq<char>) -> int {
    skip_spaces(s, 0)
}

/// Where the board field ends.
pub open spec fn ranks_end(s: Seq<char>) -> int {
    token_end(s, ranks_start(s))
}

/// Where the side-to-move field starts.
pub open spec fn side_start(s: Seq<char>) -> int {
    skip_spaces(s, ranks_end(s))
}

/// Where the side-to-move field ends.
pub open spec fn side_end(s: Seq<char>) -> int {
    token_end(s, side_start(s))
}

/// Whether the text holds at least a board field and a side field.
pub open spec fn has_two_fields(s: Seq<char>) -> bool {
    ranks_start(s) < s.len() && side_start(s) < s.len()
}

/// The board field: the first whitespace-separated token.
pub open spec fn ranks_field(s: Seq<char>) -> Seq<char> {
    s.subrange(ranks_start(s), ranks_end(s))
}

/// The side-to-move field: the second whitespace-separated token.
pub open spec fn side_field(s: Seq<char>) -> Seq<char> {
    s.subrange(side_start(s), side_end(s))
}

/// The numeric value of a FEN digit '1'..='8', or nothing.
pub open spec fn fen_digit(c: char) -> Option<u8> {
    match c {
        '1' => Some(1u8),
        '2' => Some(2u8),
        '3' => Some(3u8),
        '4' => Some(4u8),
        '5' => Some(5u8),
        '6' => Some(6u8),
        '7' => Some(7u8),
        '8' => Some(8u8),
        _ => None,
    }
}

/// How many files a character of a rank group covers: a digit covers its
/// value, any other character exactly one.
pub open spec fn char_width(c: char) -> int {
    match fen_digit(c) {
        Some(d) => d as int,
        None => 1,
    }
}

/// The number of '/' separators at or after `i` in the board field.
pub open spec fn slash_count_from(g: Seq<char>, i: int) -> int
    decreases g.len() - i,
{
    if i >= g.len() {
        0
    } else {
        (if g[i] == '/' {
            1int
        } else {
            0int
        }) + slash_count_from(g, i + 1)
    }
}

/// The position of the first '/' at or after `i`, or the length.
pub open spec fn upto_slash(g: Seq<char>, i: int) -> int
    decreases g.len() - i,
{
    if i >= g.len() || g[i] == '/' {
        i
    } else {
        upto_slash(g, i + 1)
    }
}

/// The start of rank group `k`: group 0 starts at 0, each later group one
/// past the '/' that ends the group before it.
pub open spec fn group_start(g: Seq<char>, k: int) -> int
    decreases k,
{
    if k <= 0 {
        0
    } else {
        upto_slash(g, group_start(g, k - 1)) + 1
    }
}

/// The width in files of the group that starts at `i`: the sum of the
/// widths of its characters up to the next '/' or the end.
pub open spec fn gwidth(g: Seq<char>, i: int) -> int
    decreases g.len() - i,
{
    if i >= g.len() || g[i] == '/' {
        0
    } else {
        char_width(g[i]) + gwidth(g, i + 1)
    }
}

/// Whether every character of the group that starts at `i` is a digit or a
/// piece letter.
pub open spec fn gchars_ok(g: Seq<char>, i: int) -> bool
    decreases g.len() - i,
{
    if i >= g.len() || g[i] == '/' {
        true
    } else {
        (fen_digit(g[i]) is Some || char_piece(g[i]) is Some) && gchars_ok(g, i + 1)
    }
}

/// The first character of the group starting at `i` that is neither a
/// digit nor a piece letter; meaningful only when the group holds one.
pub open spec fn gfirst_bad(g: Seq<char>, i: int) -> char
    decreases g.len() - i,
{
    if i >= g.len() || g[i] == '/' {
        ' '
    } else if fen_digit(g[i]) is None && char_piece(g[i]) is None {
        g[i]
    } else {
        gfirst_bad(g, i + 1)
    }
}

/// A run of empty slots.
pub open spec fn empty_run(n: int) -> Seq<Option<Piece>> {
    Seq::new(n as nat, |t: int| None)
}

/// The slots that the group starting at `i` lays out, left to right: a
/// digit contributes that many empty slots, any other character one slot
/// holding its decoded piece.
pub open spec fn gexpand(g: Seq<char>, i: int) -> Seq<Option<Piece>>
    decreases g.len() - i,
{
    if i >= g.len() || g[i] == '/' {
        seq![]
    } else {
        match fen_digit(g[i]) {
            Some(d) => empty_run(d as int) + gexpand(g, i + 1),
            None => seq![char_piece(g[i])] + gexpand(g, i + 1),
        }
    }
}

/// The first of the eight groups whose width is not eight files, if any.
pub open spec fn first_bad_width_group(g: Seq<char>, k: int) -> Option<int>
    decreases 8 - k,
{
    if k >= 8 {
        None
    } else if gwidth(g, group_start(g, k)) != 8 {
        Some(k)
    } else {
        first_bad_width_group(g, k + 1)
    }
}

/// The first of the eight groups holding an invalid character, if any.
pub open spec fn first_bad_char_group(g: Seq<char>, k: int) -> Option<int>
    decreases 8 - k,
{
    if k >= 8 {
        None
    } else if !gchars_ok(g, group_start(g, k)) {
        Some(k)
    } else {
        first_bad_char_group(g, k + 1)
    }
}

/// The 64 slots a valid board field denotes: group `k` (top first) fills
/// rank 7 - k, files left to right.
pub open spec fn board_squares_of(g: Seq<char>) -> Seq<Option<Piece>> {
    Seq::new(64, |i: int| gexpand(g, group_start(g, 7 - i / 8))[i % 8])
}

/// The color a side-to-move field denotes: exactly "w" or "b".
pub open spec fn side_of(f: Seq<char>) -> Option<PieceColor> {
    if f == seq!['w'] {
        Some(PieceColor::White)
    } else if f == seq!['b'] {
        Some(PieceColor::Black)
    } else {
        None
    }
}

/// What decoding a FEN text yields: the 64 slots and the side to move, or
/// the first diagnostic in the order rank count, rank widths, characters,
/// side to move.
pub open spec fn parse_fen(s: Seq<char>) -> Result<(Seq<Option<Piece>>, PieceColor), FenError> {
    if !has_two_fields(s) {
        Err(FenError::MissingFields)
    } else {
        let g = ranks_field(s);
        if slash_count_from(g, 0) != 7 {
            Err(FenError::WrongRankCount)
        } else {
            match first_bad_width_group(g, 0) {
                Some(k) => Err(FenError::BadRankWidth { rank: (8 - k) as u8 }),
                None => match first_bad_char_group(g, 0) {
                    Some(k) => Err(FenError::UnknownPiece { ch: gfirst_bad(g, group_start(g, k)) }),
                    None => match side_of(side_field(s)) {
                        Some(c) => Ok((board_squares_of(g), c)),
                        None => Err(FenError::InvalidSideToMove),
                    },
                },
            }
        }
    }
}

/// The width of a group is never negative: every character covers at least
/// one file.
pub proof fn lemma_gwidth_nonneg(g: Seq<char>, i: int)
    ensures
        gwidth(g, i) >= 0,
    decreases g.len() - i,
{
    if !(i >= g.len() || g[i] == '/') {
        lemma_gwidth_nonneg(g, i + 1);
    }
}

/// A group lays out exactly as many slots as its width counts.
pub proof fn lemma_gexpand_len(g: Seq<char>, i: int)
    ensures
        gexpand(g, i).len() == gwidth(g, i),
    decreases g.len() - i,
{
    if !(i >= g.len() || g[i] == '/') {
        lemma_gexpand_len(g, i + 1);
    }
}

/// When no group from `k` onward has a bad width, every group from `k`
/// onward expands to exactly eight files.
pub proof fn lemma_no_bad_width(g: Seq<char>, k: int)
    requires
        first_bad_width_group(g, k) is None,
    ensures
        forall|k2: int| k <= k2 < 8 ==> gwidth(g, group_start(g, k2)) == 8,
    decreases 8 - k,
{
    if k < 8 {
        lemma_no_bad_width(g, k + 1);
    }
}

/// Check that each of the eight rank groups of the board field expands to
/// exactly eight files, reporting the first that does not; on success,
/// return where each group starts.
pub(crate) fn check_widths(g: &str) -> (r: Result<Vec<usize>, FenError>)
    requires
        slash_count_from(g@, 0) == 7,
    ensures
        match r {
            Ok(starts) => first_bad_width_group(g@, 0) is None && starts@.len() == 8 && (forall|
                k: int,
            |
                0 <= k < 8 ==> starts@[k] as int == group_start(g@, k) && starts@[k] <= g@.len()),
            Err(e) => first_bad_width_group(g@, 0) matches Some(k) && e == (FenError::BadRankWidth {
                rank: (8 - k) as u8,
            }),
        },
{
    let m = g.unicode_len();
    let mut starts: Vec<usize> = Vec::new();
    let mut start: usize = 0;
    let mut k: u8 = 0;
    while k < 8
        invariant
            k <= 8,
            m == g@.len(),
            k < 8 ==> start as int == group_start(g@, k as int),
            k < 8 ==> start <= m,
            k < 8 ==> slash_count_from(g@, start as int) == 7 - k as int,
            starts@.len() == k as int,
            forall|k2: int|
                0 <= k2 < k as int ==> starts@[k2] as int == group_start(g@, k2) && starts@[k2]
                    <= m,
            first_bad_width_group(g@, 0) == first_bad_width_group(g@, k as int),
        decreases 8 - k,
    {
        starts.push(start);
        let mut w: usize = 0;
        let mut j: usize = start;
        while j < m && w <= 8 && g.get_char(j) != '/'
            invariant
                start <= j,
                j <= m,
                m == g@.len(),
                w <= 16,
                gwidth(g@, start as int) == w + gwidth(g@, j as int),
                upto_slash(g@, start as int) == upto_slash(g@, j as int),
                slash_count_from(g@, start as int) == slash_count_from(g@, j as int),
            decreases m - j,
        {
            let c = g.get_char(j);
            let d: usize = match fen_digit_value(c) {
                Some(v) => v as usize,
                None => 1,
            };
            w += d;
            j += 1;
        }
        if w != 8 {
            proof {
                lemma_gwidth_nonneg(g@, j as int);
                assert(gwidth(g@, start as int) != 8);
                assert(first_bad_width_group(g@, k as int) == Some(k as int));
            }
            return Err(FenError::BadRankWidth { rank: 8 - k });
        }
        proof {
            assert(gwidth(g@, j as int) == 0);
            assert(upto_slash(g@, j as int) == j as int);
            assert(first_bad_width_group(g@, k as int) == first_bad_width_group(g@, k as int + 1));
        }
        if k < 7 {
            proof {
                assert(slash_count_from(g@, j as int) == 7 - k as int);
                assert(j < m && g@[j as int] == '/');
            }
            start = j + 1;
        }
        k += 1;
    }
    Ok(starts)
}

/// The digit character of a run length in 1..=8.
pub open spec fn digit_char(n: int) -> char {
    if n == 1 {
        '1'
    } else if n == 2 {
        '2'
    } else if n == 3 {
        '3'
    } else if n == 4 {
        '4'
    } else if n == 5 {
        '5'
    } else if n == 6 {
        '6'
    } else if n == 7 {
        '7'
    } else {
        '8'
    }
}

/// The digit a pending run of empty files flushes to: nothing for an empty
/// run.
pub open spec fn flush_run(run: int) -> Seq<char> {
    if run <= 0 {
        seq![]
    } else {
        seq![digit_char(run)]
    }
}

/// The FEN text of one rank from the given file onward, with `run` empty
/// files pending before it.
pub open spec fn rank_fen_from(sq: Seq<Option<Piece>>, rank: int, file: int, run: int) -> Seq<char>
    decreases 8 - file,
{
    if file >= 8 {
        flush_run(run)
    } else {
        match sq[square_index(rank, file)] {
            None => rank_fen_from(sq, rank, file + 1, run + 1),
            Some(p) => flush_run(run) + seq![piece_char(p)] + rank_fen_from(sq, rank, file + 1, 0),
        }
    }
}

/// The FEN board text from the given top-to-bottom group onward: ranks 8
/// down to 1 with '/' between them and no trailing separator.
pub open spec fn fen_from(sq: Seq<Option<Piece>>, gi: int) -> Seq<char>
    decreases 8 - gi,
{
    if gi >= 8 {
        seq![]
    } else {
        rank_fen_from(sq, 7 - gi, 0, 0) + (if gi == 7 {
            seq![]
        } else {
            seq!['/']
        }) + fen_from(sq, gi + 1)
    }
}

/// The FEN board text of a board's slots.
pub open spec fn board_fen(sq: Seq<Option<Piece>>) -> Seq<char> {
    fen_from(sq, 0)
}

/// Whether a character separates fields, as executable code.
pub(crate) fn is_space_char(c: char) -> (r: bool)
    ensures
        r == is_space(c),
{
    c == ' ' || c == '\t' || c == '\n' || c == '\r'
}

/// The value of a FEN digit, as executable code.
pub(crate) fn fen_digit_value(c: char) -> (r: Option<u8>)
    ensures
        r == fen_digit(c),
{
    match c {
        '1' => Some(1u8),
        '2' => Some(2u8),
        '3' => Some(3u8),
        '4' => Some(4u8),
        '5' => Some(5u8),
        '6' => Some(6u8),
        '7' => Some(7u8),
        '8' => Some(8u8),
        _ => None,
    }
}

/// The digit character of a run length in 1..=8, as executable code.
pub(crate) fn digit_of_run(n: u8) -> (r: char)
    requires
        1 <= n <= 8,
    ensures
        r == digit_char(n as int),
{
    match n {
        1 => '1',
        2 => '2',
        3 => '3',
        4 => '4',
        5 => '5',
        6 => '6',
        7 => '7',
        _ => '8',
    }
}

/// The digit shown for a rank number in a diagnostic: '1'..='8' for the
/// chess rank numbers, '?' for anything else.
pub open spec fn rank_digit_or(rank: int) -> char {
    if 1 <= rank <= 8 {
        digit_char(rank)
    } else {
        '?'
    }
}

/// The diagnostic text of a refusal.
pub open spec fn fen_error_message(e: FenError) -> Seq<char> {
    match e {
        FenError::MissingFields => "expected board and side-to-move fields"@,
        FenError::WrongRankCount => "wrong rank count: expected 8 ranks"@,
        FenError::BadRankWidth { rank } => "rank does not expand to 8 squares (rank "@ + seq![
            rank_digit_or(rank as int),
        ] + ")"@,
        FenError::UnknownPiece { ch } => "unknown piece character '"@ + seq![ch] + "'"@,
        FenError::InvalidSideToMove => "invalid side to move"@,
    }
}

impl FenError {
    /// A human-readable diagnostic identifying the failure and, where it
    /// applies, the offending rank number or character.
    pub fn message(&self) -> (r: String)
        ensures
            r@ == fen_error_message(*self),
    {
        match *self {
            FenError::MissingFields => String::from_str("expected board and side-to-move fields"),
            FenError::WrongRankCount => String::from_str("wrong rank count: expected 8 ranks"),
            FenError::BadRankWidth { rank } => {
                let mut out = String::from_str("rank does not expand to 8 squares (rank ");
                let d = match rank {
                    1 => '1',
                    2 => '2',
                    3 => '3',
                    4 => '4',
                    5 => '5',
                    6 => '6',
                    7 => '7',
                    8 => '8',
                    _ => '?',
                };
                push_char(&mut out, d);
                out.append(")");
                proof {
                    assert(out@ =~= fen_error_message(*self));
                }
                out
            },
            FenError::UnknownPiece { ch } => {
                let mut out = String::from_str("unknown piece character '");
                push_char(&mut out, ch);
                out.append("'");
                proof {
                    assert(out@ =~= fen_error_message(*self));
                }
                out
            },
            FenError::InvalidSideToMove => String::from_str("invalid side to move"),
        }
    }
}

} // verus!
