//! Square arithmetic and the text forms of squares and moves.
//!
//! A square index is `rank * 8 + file` with file a = 0 to h = 7 and
//! rank 1 = 0 to 8 = 7.

use vstd::prelude::*;
use vstd::string::StrSliceExecFns;

use crate::board::{spec_piece_at, Board};
use crate::game::{
    spec_castle_kingside_input, spec_castle_queenside_input, spec_is_ascii_digit,
    spec_is_ascii_lowercase,
};
use crate::moves::{
    lemma_legal_moves_elems, spec_king_start, spec_legal_moves, MoveType, Moves,
};
use crate::piece::{Color, Piece};

verus! {

/// The file (column) of a square index: 0 stands for the a-file.
pub open spec fn spec_file(square: u8) -> u8 {
    square % 8
}

/// The rank (row) of a square index: 0 stands for rank 1.
pub open spec fn spec_rank(square: u8) -> u8 {
    square / 8
}

/// The file (column) of a square, 0 to 7 with 0 the a-file.
pub fn get_file(square: u8) -> (r: u8)
    ensures
        r == spec_file(square),
{
    square % 8
}

/// The rank (row) of a square, 0 to 7 with 0 the first rank.
pub fn get_rank(square: u8) -> (r: u8)
    ensures
        r == spec_rank(square),
{
    square / 8
}

/// Whether two squares share a file.
pub fn same_file(square1: u8, square2: u8) -> (r: bool)
    ensures
        r == (spec_file(square1) == spec_file(square2)),
{
    get_file(square1) == get_file(square2)
}

/// Whether two squares share a rank.
pub fn same_rank(square1: u8, square2: u8) -> (r: bool)
    ensures
        r == (spec_rank(square1) == spec_rank(square2)),
{
    get_rank(square1) == get_rank(square2)
}

/// The distance between two u8 values.
pub open spec fn spec_abs_diff(a: u8, b: u8) -> u8 {
    if a >= b {
        (a - b) as u8
    } else {
        (b - a) as u8
    }
}

fn abs_diff(a: u8, b: u8) -> (r: u8)
    ensures
        r == spec_abs_diff(a, b),
{
    if a >= b {
        a - b
    } else {
        b - a
    }
}

/// Whether two distinct squares lie on one diagonal: the file distance equals
/// the rank distance and is not zero.
pub fn same_diagonal(square1: u8, square2: u8) -> (r: bool)
    ensures
        r == (spec_abs_diff(spec_file(square1), spec_file(square2)) == spec_abs_diff(
            spec_rank(square1),
            spec_rank(square2),
        ) && spec_abs_diff(spec_file(square1), spec_file(square2)) != 0),
{
    let file_diff = abs_diff(get_file(square1), get_file(square2));
    let rank_diff = abs_diff(get_rank(square1), get_rank(square2));
    file_diff == rank_diff && file_diff != 0
}

/// The Manhattan distance between two squares: file distance plus rank
/// distance.
pub fn manhattan_distance(square1: u8, square2: u8) -> (r: u8)
    ensures
        r == spec_abs_diff(spec_file(square1), spec_file(square2)) + spec_abs_diff(
            spec_rank(square1),
            spec_rank(square2),
        ),
{
    let file_diff = abs_diff(get_file(square1), get_file(square2));
    let rank_diff = abs_diff(get_rank(square1), get_rank(square2));
    file_diff + rank_diff
}

/// The letter of a file: 'a' for 0 through 'h' for 7.
pub open spec fn spec_file_char(f: u8) -> char {
    if f == 0 {
        'a'
    } else if f == 1 {
        'b'
    } else if f == 2 {
        'c'
    } else if f == 3 {
        'd'
    } else if f == 4 {
        'e'
    } else if f == 5 {
        'f'
    } else if f == 6 {
        'g'
    } else {
        'h'
    }
}

/// The digit of a rank: '1' for 0 through '8' for 7.
pub open spec fn spec_rank_char(r: u8) -> char {
    if r == 0 {
        '1'
    } else if r == 1 {
        '2'
    } else if r == 2 {
        '3'
    } else if r == 3 {
        '4'
    } else if r == 4 {
        '5'
    } else if r == 5 {
        '6'
    } else if r == 6 {
        '7'
    } else {
        '8'
    }
}

/// The character of a decimal digit 0 through 9.
pub open spec fn spec_digit_char(d: u8) -> char {
    if d == 0 {
        '0'
    } else if d == 1 {
        '1'
    } else if d == 2 {
        '2'
    } else if d == 3 {
        '3'
    } else if d == 4 {
        '4'
    } else if d == 5 {
        '5'
    } else if d == 6 {
        '6'
    } else if d == 7 {
        '7'
    } else if d == 8 {
        '8'
    } else {
        '9'
    }
}

/// Append a decimal digit to `s`.
pub fn append_digit_char(s: &mut String, d: u8)
    requires
        d < 10,
    ensures
        final(s)@ == old(s)@ + seq![spec_digit_char(d)],
{
    proof {
        reveal_strlit("0");
        reveal_strlit("1");
        reveal_strlit("2");
        reveal_strlit("3");
        reveal_strlit("4");
        reveal_strlit("5");
        reveal_strlit("6");
        reveal_strlit("7");
        reveal_strlit("8");
        reveal_strlit("9");
    }
    match d {
        0 => s.append("0"),
        1 => s.append("1"),
        2 => s.append("2"),
        3 => s.append("3"),
        4 => s.append("4"),
        5 => s.append("5"),
        6 => s.append("6"),
        7 => s.append("7"),
        8 => s.append("8"),
        _ => s.append("9"),
    }
    assert(s@ =~= old(s)@ + seq![spec_digit_char(d)]);
}

/// The decimal text of a number: most significant digit first, no sign and
/// no leading zeros, a single zero for zero itself.
pub open spec fn spec_decimal(n: int) -> Seq<char>
    decreases n,
{
    if n < 10 {
        seq![spec_digit_char(if 0 <= n < 10 {
            n as u8
        } else {
            0
        })]
    } else {
        spec_decimal(n / 10) + seq![spec_digit_char((n % 10) as u8)]
    }
}

/// Append the decimal text of `n` to `s`.
pub fn append_decimal(s: &mut String, n: u16)
    ensures
        final(s)@ == old(s)@ + spec_decimal(n as int),
    decreases n,
{
    if n < 10 {
        append_digit_char(s, n as u8);
    } else {
        append_decimal(s, n / 10);
        append_digit_char(s, (n % 10) as u8);
        assert(s@ =~= old(s)@ + spec_decimal(n as int));
    }
}

/// The two characters that name a square: its file letter, then its rank
/// digit.
pub open spec fn spec_square_text(square: u8) -> Seq<char> {
    seq![spec_file_char(spec_file(square)), spec_rank_char(spec_rank(square))]
}

/// The promotion suffix of a move in coordinate notation: an equals sign and
/// the chosen piece's letter, or nothing when no promotable piece is chosen.
pub open spec fn spec_promo_suffix(promotion: Option<Piece>) -> Seq<char> {
    match promotion {
        Some(Piece::Queen) => seq!['=', 'Q'],
        Some(Piece::Rook) => seq!['=', 'R'],
        Some(Piece::Bishop) => seq!['=', 'B'],
        Some(Piece::Knight) => seq!['=', 'N'],
        _ => Seq::empty(),
    }
}

/// A move in coordinate notation: origin square, destination square and the
/// promotion suffix, if any.
pub open spec fn spec_move_text(from: u8, to: u8, promotion: Option<Piece>) -> Seq<char> {
    spec_square_text(from) + spec_square_text(to) + spec_promo_suffix(promotion)
}

/// The letter of a file, 'a' through 'h'.
pub fn file_char(f: u8) -> (r: char)
    requires
        f < 8,
    ensures
        r == spec_file_char(f),
{
    match f {
        0 => 'a',
        1 => 'b',
        2 => 'c',
        3 => 'd',
        4 => 'e',
        5 => 'f',
        6 => 'g',
        _ => 'h',
    }
}

/// The digit of a rank, '1' through '8'.
pub fn rank_char(r: u8) -> (c: char)
    requires
        r < 8,
    ensures
        c == spec_rank_char(r),
{
    match r {
        0 => '1',
        1 => '2',
        2 => '3',
        3 => '4',
        4 => '5',
        5 => '6',
        6 => '7',
        _ => '8',
    }
}

/// Append a file letter to `s`.
pub fn append_file_char(s: &mut String, f: u8)
    requires
        f < 8,
    ensures
        final(s)@ == old(s)@ + seq![spec_file_char(f)],
{
    proof {
        reveal_strlit("a");
        reveal_strlit("b");
        reveal_strlit("c");
        reveal_strlit("d");
        reveal_strlit("e");
        reveal_strlit("f");
        reveal_strlit("g");
        reveal_strlit("h");
    }
    match f {
        0 => s.append("a"),
        1 => s.append("b"),
        2 => s.append("c"),
        3 => s.append("d"),
        4 => s.append("e"),
        5 => s.append("f"),
        6 => s.append("g"),
        _ => s.append("h"),
    }
    assert(s@ =~= old(s)@ + seq![spec_file_char(f)]);
}

/// Append a rank digit to `s`.
pub fn append_rank_char(s: &mut String, r: u8)
    requires
        r < 8,
    ensures
        final(s)@ == old(s)@ + seq![spec_rank_char(r)],
{
    proof {
        reveal_strlit("1");
        reveal_strlit("2");
        reveal_strlit("3");
        reveal_strlit("4");
        reveal_strlit("5");
        reveal_strlit("6");
        reveal_strlit("7");
        reveal_strlit("8");
    }
    match r {
        0 => s.append("1"),
        1 => s.append("2"),
        2 => s.append("3"),
        3 => s.append("4"),
        4 => s.append("5"),
        5 => s.append("6"),
        6 => s.append("7"),
        _ => s.append("8"),
    }
    assert(s@ =~= old(s)@ + seq![spec_rank_char(r)]);
}

/// Convert a square index to its text, "a1" for 0 through "h8" for 63.
pub fn u8_to_pos(square: u8) -> (r: String)
    requires
        square < 64,
    ensures
        r@ == spec_square_text(square),
{
    let mut s = String::new();
    append_file_char(&mut s, square % 8);
    append_rank_char(&mut s, square / 8);
    assert(s@ =~= spec_square_text(square));
    s
}

/// The square a two-character name denotes: file letter 'a' through 'h',
/// rank digit '1' through '8'; anything else denotes no square.
pub open spec fn spec_parse_square(s: Seq<char>) -> Option<u8> {
    if s.len() == 2 && 'a' <= s[0] <= 'h' && '1' <= s[1] <= '8' {
        Some((((s[1] as int - '1' as int) * 8) + (s[0] as int - 'a' as int)) as u8)
    } else {
        None
    }
}

/// Convert a square name such as "a1" or "h8" to its index 0 to 63:
/// `(rank - 1) * 8 + file`. A text that is not exactly a file letter
/// followed by a rank digit yields `None`.
pub fn pos_to_u8(pos: &str) -> (r: Option<u8>)
    ensures
        r == spec_parse_square(pos@),
        r matches Some(sq) ==> sq < 64,
{
    if pos.unicode_len() != 2 {
        return None;
    }
    let c0 = pos.get_char(0);
    let c1 = pos.get_char(1);
    proof {
        assert(pos@ =~= seq![c0, c1]);
    }
    parse_square_chars(c0, c1)
}

/// Convert a move to coordinate notation, such as "e2e4" or "a7a8=Q".
pub fn move_to_algebraic(from: u8, to: u8, promotion: Option<Piece>) -> (r: String)
    requires
        from < 64,
        to < 64,
    ensures
        r@ == spec_move_text(from, to, promotion),
{
    proof {
        reveal_strlit("=Q");
        reveal_strlit("=R");
        reveal_strlit("=B");
        reveal_strlit("=N");
    }
    let mut s = u8_to_pos(from);
    let tail = u8_to_pos(to);
    s.append(tail.as_str());
    match promotion {
        Some(Piece::Queen) => s.append("=Q"),
        Some(Piece::Rook) => s.append("=R"),
        Some(Piece::Bishop) => s.append("=B"),
        Some(Piece::Knight) => s.append("=N"),
        _ => {},
    }
    assert(s@ =~= spec_move_text(from, to, promotion));
    s
}

/// What a coordinate-notation text denotes: an origin square, a destination
/// square, and the promotable piece of a "=X" suffix when one is chosen.
pub open spec fn spec_parse_algebraic(s: Seq<char>) -> Option<(u8, u8, Option<Piece>)> {
    if s.len() < 4 {
        None
    } else {
        match (spec_parse_square(s.subrange(0, 2)), spec_parse_square(s.subrange(2, 4))) {
            (Some(from), Some(to)) => {
                let promotion = if s.len() >= 6 && s[4] == '=' {
                    if s[5] == 'Q' {
                        Some(Piece::Queen)
                    } else if s[5] == 'R' {
                        Some(Piece::Rook)
                    } else if s[5] == 'B' {
                        Some(Piece::Bishop)
                    } else if s[5] == 'N' {
                        Some(Piece::Knight)
                    } else {
                        None
                    }
                } else {
                    None
                };
                Some((from, to, promotion))
            },
            _ => None,
        }
    }
}

/// Parse coordinate notation such as "e2e4" or "a7a8=Q" into its origin
/// square, destination square, and chosen promotion piece, if any.
pub fn parse_algebraic(algebraic: &str) -> (r: Option<(u8, u8, Option<Piece>)>)
    ensures
        r == spec_parse_algebraic(algebraic@),
        r matches Some(t) ==> t.0 < 64 && t.1 < 64,
{
    let n = algebraic.unicode_len();
    if n < 4 {
        return None;
    }
    let c0 = algebraic.get_char(0);
    let c1 = algebraic.get_char(1);
    let c2 = algebraic.get_char(2);
    let c3 = algebraic.get_char(3);
    let from_square = parse_square_chars(c0, c1);
    let to_square = parse_square_chars(c2, c3);
    proof {
        assert(algebraic@.subrange(0, 2) =~= seq![c0, c1]);
        assert(algebraic@.subrange(2, 4) =~= seq![c2, c3]);
    }
    match (from_square, to_square) {
        (Some(from), Some(to)) => {
            let promotion = if n >= 6 && algebraic.get_char(4) == '=' {
                match algebraic.get_char(5) {
                    'Q' => Some(Piece::Queen),
                    'R' => Some(Piece::Rook),
                    'B' => Some(Piece::Bishop),
                    'N' => Some(Piece::Knight),
                    _ => None,
                }
            } else {
                None
            };
            Some((from, to, promotion))
        },
        _ => None,
    }
}

/// The square two characters name, as [`spec_parse_square`] reads them.
fn parse_square_chars(c0: char, c1: char) -> (r: Option<u8>)
    ensures
        r == spec_parse_square(seq![c0, c1]),
        r matches Some(sq) ==> sq < 64,
{
    if 'a' <= c0 && c0 <= 'h' && '1' <= c1 && c1 <= '8' {
        let f = c0 as u32 - 'a' as u32;
        let r = c1 as u32 - '1' as u32;
        Some((r * 8 + f) as u8)
    } else {
        None
    }
}

/// The promotable piece a letter chooses, if any.
pub open spec fn spec_promo_letter(c: char) -> Option<Piece> {
    if c == 'Q' {
        Some(Piece::Queen)
    } else if c == 'R' {
        Some(Piece::Rook)
    } else if c == 'B' {
        Some(Piece::Bishop)
    } else if c == 'N' {
        Some(Piece::Knight)
    } else {
        None
    }
}

/// The piece a standard-algebraic letter names, if any; pawns have no
/// letter.
pub open spec fn spec_piece_letter(c: char) -> Option<Piece> {
    if c == 'K' {
        Some(Piece::King)
    } else if c == 'Q' {
        Some(Piece::Queen)
    } else if c == 'R' {
        Some(Piece::Rook)
    } else if c == 'B' {
        Some(Piece::Bishop)
    } else if c == 'N' {
        Some(Piece::Knight)
    } else {
        None
    }
}

/// What a standard-algebraic move text asks for, besides castling: the
/// piece kind, the target square, the disambiguation characters and the
/// chosen promotion. A trailing check or mate mark is dropped; a "=X"
/// suffix names the promotion; the last two remaining characters must name
/// the target square; a capture mark before them is dropped; what is left
/// is the piece letter and the disambiguation.
pub open spec fn spec_san_core(s: Seq<char>) -> Option<(Piece, u8, Seq<char>, Option<Piece>)> {
    if s.len() == 0 {
        None
    } else {
        let s1 = if s.last() == '+' || s.last() == '#' {
            s.drop_last()
        } else {
            s
        };
        let has_promo = s1.len() >= 3 && s1[s1.len() - 2] == '=';
        let promo = if has_promo {
            spec_promo_letter(s1.last())
        } else {
            None
        };
        let s2 = if has_promo {
            s1.subrange(0, s1.len() - 2)
        } else {
            s1
        };
        if s2.len() >= 2 && spec_is_ascii_lowercase(s2[s2.len() - 2]) && spec_is_ascii_digit(
            s2[s2.len() - 1],
        ) {
            match spec_parse_square(s2.subrange(s2.len() - 2, s2.len() as int)) {
                None => None,
                Some(target) => {
                    let s3 = s2.subrange(0, s2.len() - 2);
                    let s4 = if s3.len() > 0 && s3.last() == 'x' {
                        s3.drop_last()
                    } else {
                        s3
                    };
                    if s4.len() == 0 {
                        Some((Piece::Pawn, target, Seq::empty(), promo))
                    } else {
                        match spec_piece_letter(s4[0]) {
                            Some(p) => Some((p, target, s4.subrange(1, s4.len() as int), promo)),
                            None => None,
                        }
                    }
                },
            }
        } else {
            None
        }
    }
}

/// Whether a move's origin square fits the disambiguation: nothing to fit
/// when empty, a file letter or rank digit when one character, the full
/// square name when two; anything longer fits no square.
pub open spec fn spec_disambig_matches(d: Seq<char>, from: u8) -> bool {
    if d.len() == 0 {
        true
    } else if d.len() == 1 {
        if spec_is_ascii_lowercase(d[0]) {
            spec_file_char(spec_file(from)) == d[0]
        } else if spec_is_ascii_digit(d[0]) {
            spec_rank_char(spec_rank(from)) == d[0]
        } else {
            false
        }
    } else if d.len() == 2 {
        d == spec_square_text(from)
    } else {
        false
    }
}

/// Whether a legal move answers the parsed request: it reaches the target
/// square, moves the named piece kind, and promotes exactly as chosen — a
/// promotion move with no chosen piece, or a chosen piece with no
/// promotion, answers nothing.
pub open spec fn spec_san_move_matches(
    board: Board,
    mv: Moves,
    piece: Piece,
    target: u8,
    promo: Option<Piece>,
) -> bool {
    mv.to == target && (match spec_piece_at(board, mv.from) {
        Some((p, c)) => p == piece,
        None => false,
    }) && (match (promo, mv.move_type) {
        (Some(pp), MoveType::Promotion { piece: mp }) => pp == mp,
        (Some(pp), MoveType::PromotionCapture { piece: mp }) => pp == mp,
        (None, MoveType::Promotion { .. }) => false,
        (None, MoveType::PromotionCapture { .. }) => false,
        (Some(pp), _) => false,
        (None, _) => true,
    })
}

/// The moves among the first `i` of `moves` that answer the parsed request
/// and fit the disambiguation, in order.
pub open spec fn spec_san_filter(
    board: Board,
    moves: Seq<Moves>,
    piece: Piece,
    target: u8,
    d: Seq<char>,
    promo: Option<Piece>,
    i: int,
) -> Seq<Moves>
    decreases i,
{
    if i <= 0 {
        Seq::empty()
    } else {
        spec_san_filter(board, moves, piece, target, d, promo, i - 1) + if spec_san_move_matches(
            board,
            moves[i - 1],
            piece,
            target,
            promo,
        ) && spec_disambig_matches(d, moves[i - 1].from) {
            seq![moves[i - 1]]
        } else {
            Seq::empty()
        }
    }
}

/// The coordinate text a standard-algebraic move text denotes on `board`
/// for `color`: castling requests name the king's two-square move directly;
/// any other request is parsed and matched against the legal moves, and
/// names origin and destination exactly when one legal move answers it.
pub open spec fn spec_algebraic_to_coordinate(board: Board, color: Color, s: Seq<char>) -> Option<
    Seq<char>,
> {
    let ks = spec_king_start(color);
    if spec_castle_kingside_input(s) {
        Some(spec_square_text(ks) + spec_square_text((ks + 2) as u8))
    } else if spec_castle_queenside_input(s) {
        Some(spec_square_text(ks) + spec_square_text((ks - 2) as u8))
    } else {
        match spec_san_core(s) {
            None => None,
            Some((piece, target, d, promo)) => {
                let lm = spec_legal_moves(board, color);
                let m = spec_san_filter(board, lm, piece, target, d, promo, lm.len() as int);
                if m.len() == 1 {
                    Some(spec_square_text(m[0].from) + spec_square_text(m[0].to))
                } else {
                    None
                }
            },
        }
    }
}

/// The Chebyshev distance between two squares: the larger of the file distance
/// and the rank distance; the number of king steps between them.
pub fn king_distance(square1: u8, square2: u8) -> (r: u8)
    ensures
        r == if spec_abs_diff(spec_file(square1), spec_file(square2)) >= spec_abs_diff(
            spec_rank(square1),
            spec_rank(square2),
        ) {
            spec_abs_diff(spec_file(square1), spec_file(square2))
        } else {
            spec_abs_diff(spec_rank(square1), spec_rank(square2))
        },
{
    let file_diff = abs_diff(get_file(square1), get_file(square2));
    let rank_diff = abs_diff(get_rank(square1), get_rank(square2));
    if file_diff >= rank_diff {
        file_diff
    } else {
        rank_diff
    }
}

/// The promotable piece a letter chooses, if any.
fn promo_letter(c: char) -> (r: Option<Piece>)
    ensures
        r == spec_promo_letter(c),
{
    match c {
        'Q' => Some(Piece::Queen),
        'R' => Some(Piece::Rook),
        'B' => Some(Piece::Bishop),
        'N' => Some(Piece::Knight),
        _ => None,
    }
}

/// The piece a standard-algebraic letter names, if any.
fn piece_letter(c: char) -> (r: Option<Piece>)
    ensures
        r == spec_piece_letter(c),
{
    match c {
        'K' => Some(Piece::King),
        'Q' => Some(Piece::Queen),
        'R' => Some(Piece::Rook),
        'B' => Some(Piece::Bishop),
        'N' => Some(Piece::Knight),
        _ => None,
    }
}

/// The coordinate text of the king's two-square castle move for `color`.
fn castle_coordinate(color: Color, kingside: bool) -> (r: String)
    ensures
        r@ == spec_square_text(spec_king_start(color)) + spec_square_text(
            if kingside {
                (spec_king_start(color) + 2) as u8
            } else {
                (spec_king_start(color) - 2) as u8
            },
        ),
{
    let from: u8 = match color {
        Color::White => 4,
        Color::Black => 60,
    };
    let to: u8 = if kingside {
        from + 2
    } else {
        from - 2
    };
    let mut text = u8_to_pos(from);
    let tail = u8_to_pos(to);
    text.append(tail.as_str());
    text
}

/// Parse a standard-algebraic move text, castling aside: the piece kind,
/// the target square, the range of the disambiguation characters and the
/// chosen promotion.
#[verifier::rlimit(60)]
fn san_parse(algebraic: &str) -> (r: Option<(Piece, u8, usize, usize, Option<Piece>)>)
    ensures
        r is Some <==> spec_san_core(algebraic@) is Some,
        r matches Some((p, t, d_lo, d_hi, pr)) ==> d_lo <= d_hi <= algebraic@.len()
            && spec_san_core(algebraic@) == Some(
            (p, t, algebraic@.subrange(d_lo as int, d_hi as int), pr),
        ),
{
    let ghost s = algebraic@;
    let n = algebraic.unicode_len();
    if n == 0 {
        return None;
    }

    // Drop a trailing check or mate mark.
    let mut hi = n;
    let last = algebraic.get_char(hi - 1);
    if last == '+' || last == '#' {
        hi = hi - 1;
    }
    let ghost s1 = (if s.last() == '+' || s.last() == '#' {
        s.drop_last()
    } else {
        s
    });
    proof {
        assert(s1 =~= s.subrange(0, hi as int));
    }

    // The promotion suffix.
    let mut promo: Option<Piece> = None;
    let ghost has_promo = s1.len() >= 3 && s1[s1.len() - 2] == '=';
    if hi >= 3 && algebraic.get_char(hi - 2) == '=' {
        promo = promo_letter(algebraic.get_char(hi - 1));
        hi = hi - 2;
    }
    let ghost s2 = (if has_promo {
        s1.subrange(0, s1.len() - 2)
    } else {
        s1
    });
    proof {
        assert(s2 =~= s.subrange(0, hi as int));
    }

    // The target square.
    if hi < 2 {
        return None;
    }
    let cf = algebraic.get_char(hi - 2);
    let cd = algebraic.get_char(hi - 1);
    proof {
        assert(s2.subrange(s2.len() - 2, s2.len() as int) =~= seq![cf, cd]);
    }
    if !('a' <= cf && cf <= 'z' && '0' <= cd && cd <= '9') {
        return None;
    }
    let target = match parse_square_chars(cf, cd) {
        Some(t) => t,
        None => {
            return None;
        },
    };
    hi = hi - 2;
    let ghost s3 = s2.subrange(0, s2.len() - 2);
    proof {
        assert(s3 =~= s.subrange(0, hi as int));
    }

    // Drop a capture mark.
    if hi > 0 && algebraic.get_char(hi - 1) == 'x' {
        hi = hi - 1;
    }
    let ghost s4 = (if s3.len() > 0 && s3.last() == 'x' {
        s3.drop_last()
    } else {
        s3
    });
    proof {
        assert(s4 =~= s.subrange(0, hi as int));
    }

    // The piece letter and the disambiguation.
    if hi == 0 {
        proof {
            assert(Seq::<char>::empty() =~= s.subrange(0, 0));
        }
        return Some((Piece::Pawn, target, 0, 0, promo));
    }
    match piece_letter(algebraic.get_char(0)) {
        Some(p) => {
            proof {
                assert(s4.subrange(1, s4.len() as int) =~= s.subrange(1, hi as int));
            }
            Some((p, target, 1, hi, promo))
        },
        None => None,
    }
}

/// The legal moves of `color` that answer a parsed request, with the
/// disambiguation characters read from `algebraic`.
#[verifier::rlimit(60)]
fn san_match(
    algebraic: &str,
    board: &Board,
    color: Color,
    piece: Piece,
    target: u8,
    d_lo: usize,
    d_hi: usize,
    promo: Option<Piece>,
) -> (r: Vec<Moves>)
    requires
        d_lo <= d_hi <= algebraic@.len(),
    ensures
        ({
            let lm = spec_legal_moves(*board, color);
            let d = algebraic@.subrange(d_lo as int, d_hi as int);
            r@ == spec_san_filter(*board, lm, piece, target, d, promo, lm.len() as int)
                && forall|k: int|
                0 <= k < r@.len() ==> (#[trigger] r@[k]).from < 64 && r@[k].to < 64
        }),
{
    let ghost s = algebraic@;
    let ghost d = s.subrange(d_lo as int, d_hi as int);
    let legal_moves = crate::moves::Moves::generate_legal_moves(board, color);
    proof {
        lemma_legal_moves_elems(*board, color);
    }
    let mut matched: Vec<Moves> = Vec::new();
    let m = legal_moves.len();
    let mut i: usize = 0;
    while i < m
        invariant
            m == legal_moves@.len(),
            i <= m,
            d_lo <= d_hi <= s.len(),
            s == algebraic@,
            d == s.subrange(d_lo as int, d_hi as int),
            legal_moves@ == spec_legal_moves(*board, color),
            forall|k: int|
                0 <= k < m ==> crate::moves::spec_is_legal(
                    *board,
                    #[trigger] legal_moves@[k],
                    color,
                ),
            matched@ == spec_san_filter(*board, legal_moves@, piece, target, d, promo, i as int),
            forall|k: int|
                0 <= k < matched@.len() ==> (#[trigger] matched@[k]).from < 64 && matched@[k].to
                    < 64,
        decreases m - i,
    {
        let mv = legal_moves[i];
        let kind_ok = mv.to == target && (match board.get_piece_at(mv.from) {
            Some((p, _)) => p == piece,
            None => false,
        }) && (match (promo, mv.move_type) {
            (Some(pp), MoveType::Promotion { piece: mp }) => pp == mp,
            (Some(pp), MoveType::PromotionCapture { piece: mp }) => pp == mp,
            (None, MoveType::Promotion { .. }) => false,
            (None, MoveType::PromotionCapture { .. }) => false,
            (Some(_), _) => false,
            (None, _) => true,
        });
        let dis_ok: bool;
        let dl = d_hi - d_lo;
        if dl == 0 {
            dis_ok = true;
        } else if dl == 1 {
            let dc = algebraic.get_char(d_lo);
            assert(d[0] == s[d_lo as int]);
            if 'a' <= dc && dc <= 'z' {
                dis_ok = file_char(mv.from % 8) == dc;
            } else if '0' <= dc && dc <= '9' {
                dis_ok = rank_char(mv.from / 8) == dc;
            } else {
                dis_ok = false;
            }
        } else if dl == 2 {
            let d0 = algebraic.get_char(d_lo);
            let d1 = algebraic.get_char(d_lo + 1);
            proof {
                assert(d =~= seq![s[d_lo as int], s[d_lo as int + 1]]);
            }
            dis_ok = file_char(mv.from % 8) == d0 && rank_char(mv.from / 8) == d1;
            proof {
                if dis_ok {
                    assert(d =~= spec_square_text(mv.from));
                } else {
                    assert(d != spec_square_text(mv.from));
                }
            }
        } else {
            dis_ok = false;
        }
        if kind_ok && dis_ok {
            matched.push(mv);
        }
        assert(matched@ =~= spec_san_filter(
            *board,
            legal_moves@,
            piece,
            target,
            d,
            promo,
            i as int + 1,
        ));
        i = i + 1;
    }
    matched
}

/// Convert standard algebraic notation, such as "Nf3", "exd5" or "e8=Q",
/// to coordinate notation by matching it against the legal moves of
/// `color`; the result names origin and destination exactly when one legal
/// move answers the request. Castling requests convert directly.
pub fn algebraic_to_coordinate(algebraic: &str, board: &crate::board::Board, color: Color) -> (r:
    Option<String>)
    ensures
        r is Some <==> spec_algebraic_to_coordinate(*board, color, algebraic@) is Some,
        r matches Some(t) ==> Some(t@) == spec_algebraic_to_coordinate(*board, color, algebraic@),
{
    let n = algebraic.unicode_len();

    // Castling requests.
    if n == 3 {
        let c0 = algebraic.get_char(0);
        let c1 = algebraic.get_char(1);
        let c2 = algebraic.get_char(2);
        if c1 == '-' && (((c0 == 'o' || c0 == 'O') && (c2 == 'o' || c2 == 'O')) || (c0 == '0' && c2
            == '0')) {
            return Some(castle_coordinate(color, true));
        }
    }
    if n == 5 {
        let c0 = algebraic.get_char(0);
        let c1 = algebraic.get_char(1);
        let c2 = algebraic.get_char(2);
        let c3 = algebraic.get_char(3);
        let c4 = algebraic.get_char(4);
        if c1 == '-' && c3 == '-' && (((c0 == 'o' || c0 == 'O') && (c2 == 'o' || c2 == 'O') && (c4
            == 'o' || c4 == 'O')) || (c0 == '0' && c2 == '0' && c4 == '0')) {
            return Some(castle_coordinate(color, false));
        }
    }

    let (piece, target, d_lo, d_hi, promo) = match san_parse(algebraic) {
        Some(t) => t,
        None => {
            return None;
        },
    };
    let matched = san_match(algebraic, board, color, piece, target, d_lo, d_hi, promo);
    if matched.len() == 1 {
        let mv = matched[0];
        let mut text = u8_to_pos(mv.from);
        let tail = u8_to_pos(mv.to);
        text.append(tail.as_str());
        Some(text)
    } else {
        None
    }
}

} // verus!
