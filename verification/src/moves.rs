//! Move values and pseudo-legal move generation.
//!
//! A pseudo-legal move obeys the moved piece's movement rules and the board's
//! occupancy, but may leave the mover's own king in check; the legality filter
//! in [`crate::moves`] removes those. Move order is fixed: within one piece
//! the blocks below run in source order, and [`Moves::generate_all_moves`]
//! walks piece kinds in a fixed order, so generation is deterministic.

use vstd::prelude::*;

use crate::board::{
    lemma_bb_squares_prefix_props, lemma_make_move_preserves_wf, lemma_move_membership,
    lemma_no_membership_empty, lemma_piece_at_wf, lemma_unique_membership_piece_at,
    spec_bb_squares, spec_ep_ok, spec_ep_square, spec_get_bb, spec_has_piece, spec_make_move,
    spec_move_safe, spec_piece_at, spec_wf, Board,
};
use crate::piece::{Color, Piece};
use crate::util::{spec_file, spec_rank};

verus! {

/// The kind of a move: plain step, capture, en-passant capture, castle,
/// double pawn push, or promotion with the chosen piece.
#[derive(Debug, Clone, Copy, PartialEq, Eq, Structural)]
pub enum MoveType {
    Normal,
    Capture,
    EnPassant,
    Castle,
    Promotion { piece: Piece },
    Double,
    PromotionCapture { piece: Piece },
}

/// A move command: origin square, destination square and kind. A move is a
/// pure value; it does not reference a board.
#[derive(Debug, Clone, Copy, PartialEq, Eq, Structural)]
pub struct Moves {
    pub from: u8,
    pub to: u8,
    pub move_type: MoveType,
}

/// The move-kind tag of a promotion to `piece`: a capturing or a plain one.
pub open spec fn spec_promo_kind(piece: Piece, is_capture: bool) -> MoveType {
    if is_capture {
        MoveType::PromotionCapture { piece }
    } else {
        MoveType::Promotion { piece }
    }
}

/// The four promotion moves from `from` to `to`, in the fixed order queen,
/// rook, bishop, knight.
pub open spec fn spec_promotions(from: u8, to: u8, is_capture: bool) -> Seq<Moves> {
    seq![
        Moves { from, to, move_type: spec_promo_kind(Piece::Queen, is_capture) },
        Moves { from, to, move_type: spec_promo_kind(Piece::Rook, is_capture) },
        Moves { from, to, move_type: spec_promo_kind(Piece::Bishop, is_capture) },
        Moves { from, to, move_type: spec_promo_kind(Piece::Knight, is_capture) },
    ]
}

/// The rank a pawn of `color` starts on.
pub open spec fn spec_start_rank(color: Color) -> u8 {
    match color {
        Color::White => 1,
        Color::Black => 6,
    }
}

/// The rank from which a pawn of `color` promotes on its next step.
pub open spec fn spec_promo_rank(color: Color) -> u8 {
    match color {
        Color::White => 6,
        Color::Black => 1,
    }
}

/// The square one step forward of `square` for a pawn of `color`, as an
/// unbounded integer: White moves up the board, Black down.
pub open spec fn spec_pawn_fwd_to(square: u8, color: Color) -> int {
    match color {
        Color::White => square + 8,
        Color::Black => square - 8,
    }
}

/// The square two steps forward of `square` for a pawn of `color`.
pub open spec fn spec_pawn_fwd2_to(square: u8, color: Color) -> int {
    match color {
        Color::White => square + 16,
        Color::Black => square - 16,
    }
}

/// The diagonal capture square of a pawn of `color` on `square`, toward the
/// lower file when `left` and the higher file otherwise.
pub open spec fn spec_pawn_cap_to(square: u8, color: Color, left: bool) -> int {
    match color {
        Color::White => if left {
            square + 7
        } else {
            square + 9
        },
        Color::Black => if left {
            square - 9
        } else {
            square - 7
        },
    }
}

/// The forward block of a pawn's moves: a single push when the square ahead
/// is empty (fanning into four promotions from the promotion rank), and a
/// double push from the start rank when both squares ahead are empty.
pub open spec fn spec_pawn_forward(board: Board, square: u8, color: Color) -> Seq<Moves> {
    let t = spec_pawn_fwd_to(square, color);
    if 0 <= t < 64 && spec_piece_at(board, t as u8) is None {
        if spec_rank(square) == spec_promo_rank(color) {
            spec_promotions(square, t as u8, false)
        } else {
            seq![Moves { from: square, to: t as u8, move_type: MoveType::Normal }]
                + if spec_rank(square) == spec_start_rank(color) {
                let t2 = spec_pawn_fwd2_to(square, color);
                if 0 <= t2 < 64 && spec_piece_at(board, t2 as u8) is None {
                    seq![Moves { from: square, to: t2 as u8, move_type: MoveType::Double }]
                } else {
                    Seq::empty()
                }
            } else {
                Seq::empty()
            }
        }
    } else {
        Seq::empty()
    }
}

/// One diagonal capture block of a pawn's moves: a capture onto the diagonal
/// square when an opposing piece stands there, fanning into four promotions
/// from the promotion rank.
pub open spec fn spec_pawn_capture(board: Board, square: u8, color: Color, left: bool) -> Seq<
    Moves,
> {
    let file_ok = if left {
        spec_file(square) > 0
    } else {
        spec_file(square) < 7
    };
    let t = spec_pawn_cap_to(square, color, left);
    if file_ok && 0 <= t < 64 {
        match spec_piece_at(board, t as u8) {
            Some((p2, c2)) => if c2 != color {
                if spec_rank(square) == spec_promo_rank(color) {
                    spec_promotions(square, t as u8, true)
                } else {
                    seq![Moves { from: square, to: t as u8, move_type: MoveType::Capture }]
                }
            } else {
                Seq::empty()
            },
            None => Seq::empty(),
        }
    } else {
        Seq::empty()
    }
}

/// One en-passant block of a pawn's moves: an en-passant capture is emitted
/// only when the diagonal destination equals the board's en-passant target
/// and the square beside the origin, on the capturing side, holds an opposing
/// pawn.
pub open spec fn spec_pawn_ep(board: Board, square: u8, color: Color, left: bool) -> Seq<Moves> {
    match board.en_passant {
        Some(ep) => {
            let file_ok = if left {
                spec_file(square) > 0
            } else {
                spec_file(square) < 7
            };
            let t = spec_pawn_cap_to(square, color, left);
            let adj = if left {
                square - 1
            } else {
                square + 1
            };
            if file_ok && 0 <= t < 64 && t == ep && 0 <= adj < 64 && spec_piece_at(
                board,
                adj as u8,
            ) == Some((Piece::Pawn, color.spec_opponent())) {
                seq![Moves { from: square, to: ep, move_type: MoveType::EnPassant }]
            } else {
                Seq::empty()
            }
        },
        None => Seq::empty(),
    }
}

/// All pseudo-legal moves of a pawn of `color` on `square`: forward block,
/// then the two capture blocks, then the two en-passant blocks.
pub open spec fn spec_pawn_moves(board: Board, square: u8, color: Color) -> Seq<Moves> {
    spec_pawn_forward(board, square, color) + spec_pawn_capture(board, square, color, true)
        + spec_pawn_capture(board, square, color, false) + spec_pawn_ep(board, square, color, true)
        + spec_pawn_ep(board, square, color, false)
}

/// The eight knight offsets `(rank step, file step)`, in the fixed order the
/// generator walks them.
pub open spec fn spec_knight_offset(j: int) -> (int, int) {
    if j == 0 {
        (2, 1)
    } else if j == 1 {
        (1, 2)
    } else if j == 2 {
        (-1, 2)
    } else if j == 3 {
        (-2, 1)
    } else if j == 4 {
        (-2, -1)
    } else if j == 5 {
        (-1, -2)
    } else if j == 6 {
        (1, -2)
    } else {
        (2, -1)
    }
}

/// The eight king offsets, in the fixed order the generator walks them.
pub open spec fn spec_king_offset(j: int) -> (int, int) {
    if j == 0 {
        (1, 0)
    } else if j == 1 {
        (1, 1)
    } else if j == 2 {
        (0, 1)
    } else if j == 3 {
        (-1, 1)
    } else if j == 4 {
        (-1, 0)
    } else if j == 5 {
        (-1, -1)
    } else if j == 6 {
        (0, -1)
    } else {
        (1, -1)
    }
}

/// The move a single fixed offset contributes: nothing off the board or onto
/// a square held by the moving color, a capture onto an opposing piece, and a
/// plain step onto an empty square.
pub open spec fn spec_offset_move(board: Board, square: u8, color: Color, dr: int, df: int) -> Seq<
    Moves,
> {
    let nr = spec_rank(square) + dr;
    let nf = spec_file(square) + df;
    if 0 <= nr < 8 && 0 <= nf < 8 {
        let t = (nr * 8 + nf) as u8;
        match spec_piece_at(board, t) {
            Some((p2, c2)) => if c2 != color {
                seq![Moves { from: square, to: t, move_type: MoveType::Capture }]
            } else {
                Seq::empty()
            },
            None => seq![Moves { from: square, to: t, move_type: MoveType::Normal }],
        }
    } else {
        Seq::empty()
    }
}

/// The moves of the first `j` knight offsets.
pub open spec fn spec_knight_prefix(board: Board, square: u8, color: Color, j: int) -> Seq<Moves>
    decreases j,
{
    if j <= 0 {
        Seq::empty()
    } else {
        spec_knight_prefix(board, square, color, j - 1) + {
            let (dr, df) = spec_knight_offset(j - 1);
            spec_offset_move(board, square, color, dr, df)
        }
    }
}

/// All pseudo-legal moves of a knight of `color` on `square`.
pub open spec fn spec_knight_moves(board: Board, square: u8, color: Color) -> Seq<Moves> {
    spec_knight_prefix(board, square, color, 8)
}

/// The moves of the first `j` king offsets.
pub open spec fn spec_king_prefix(board: Board, square: u8, color: Color, j: int) -> Seq<Moves>
    decreases j,
{
    if j <= 0 {
        Seq::empty()
    } else {
        spec_king_prefix(board, square, color, j - 1) + {
            let (dr, df) = spec_king_offset(j - 1);
            spec_offset_move(board, square, color, dr, df)
        }
    }
}

/// All pseudo-legal single-step moves of the king of `color` on `square`.
/// Castling is generated separately.
pub open spec fn spec_king_moves(board: Board, square: u8, color: Color) -> Seq<Moves> {
    spec_king_prefix(board, square, color, 8)
}

/// The moves of one sliding ray, walking from `(r, f)` in direction
/// `(dr, df)` for at most `fuel` further steps: empty squares yield plain
/// steps, the first occupied square ends the ray and yields a capture exactly
/// when it holds an opposing piece.
pub open spec fn spec_ray_moves_from(
    board: Board,
    from_sq: u8,
    color: Color,
    r: int,
    f: int,
    dr: int,
    df: int,
    fuel: nat,
) -> Seq<Moves>
    decreases fuel,
{
    if fuel == 0 {
        Seq::empty()
    } else {
        let nr = r + dr;
        let nf = f + df;
        if 0 <= nr < 8 && 0 <= nf < 8 {
            let t = (nr * 8 + nf) as u8;
            match spec_piece_at(board, t) {
                None => seq![Moves { from: from_sq, to: t, move_type: MoveType::Normal }]
                    + spec_ray_moves_from(
                    board,
                    from_sq,
                    color,
                    nr,
                    nf,
                    dr,
                    df,
                    (fuel - 1) as nat,
                ),
                Some((p2, c2)) => if c2 != color {
                    seq![Moves { from: from_sq, to: t, move_type: MoveType::Capture }]
                } else {
                    Seq::empty()
                },
            }
        } else {
            Seq::empty()
        }
    }
}

/// One full sliding ray from `square` in direction `(dr, df)`.
pub open spec fn spec_ray_moves(board: Board, square: u8, color: Color, dr: int, df: int) -> Seq<
    Moves,
> {
    spec_ray_moves_from(
        board,
        square,
        color,
        spec_rank(square) as int,
        spec_file(square) as int,
        dr,
        df,
        7,
    )
}

/// All pseudo-legal moves of a rook of `color` on `square`: the four straight
/// rays in the fixed order up, right, down, left.
pub open spec fn spec_rook_moves(board: Board, square: u8, color: Color) -> Seq<Moves> {
    spec_ray_moves(board, square, color, 1, 0) + spec_ray_moves(board, square, color, 0, 1)
        + spec_ray_moves(board, square, color, -1, 0) + spec_ray_moves(board, square, color, 0, -1)
}

/// All pseudo-legal moves of a bishop of `color` on `square`: the four
/// diagonal rays in a fixed order.
pub open spec fn spec_bishop_moves(board: Board, square: u8, color: Color) -> Seq<Moves> {
    spec_ray_moves(board, square, color, 1, 1) + spec_ray_moves(board, square, color, 1, -1)
        + spec_ray_moves(board, square, color, -1, 1) + spec_ray_moves(board, square, color, -1, -1)
}

/// All pseudo-legal moves of a queen of `color` on `square`: the rook rays,
/// then the bishop rays.
pub open spec fn spec_queen_moves(board: Board, square: u8, color: Color) -> Seq<Moves> {
    spec_rook_moves(board, square, color) + spec_bishop_moves(board, square, color)
}

/// Whether a pawn of `by` attacks `sq`: a pawn of `by` stands one rank back
/// from `sq`, toward `by`'s own side, on an adjacent file.
pub open spec fn spec_pawn_attack(board: Board, sq: u8, by: Color) -> bool {
    match by {
        Color::White => spec_rank(sq) >= 1 && ((spec_file(sq) >= 1 && spec_has_piece(
            board,
            Piece::Pawn,
            Color::White,
            (sq - 9) as u8,
        )) || (spec_file(sq) <= 6 && spec_has_piece(board, Piece::Pawn, Color::White, (sq - 7) as u8))),
        Color::Black => spec_rank(sq) <= 6 && ((spec_file(sq) >= 1 && spec_has_piece(
            board,
            Piece::Pawn,
            Color::Black,
            (sq + 7) as u8,
        )) || (spec_file(sq) <= 6 && spec_has_piece(board, Piece::Pawn, Color::Black, (sq + 9) as u8))),
    }
}

/// Whether a piece of the given kind and color stands at the fixed offset
/// `(dr, df)` from `sq`, on the board.
pub open spec fn spec_offset_attack(
    board: Board,
    sq: u8,
    piece: Piece,
    by: Color,
    dr: int,
    df: int,
) -> bool {
    let nr = spec_rank(sq) + dr;
    let nf = spec_file(sq) + df;
    0 <= nr < 8 && 0 <= nf < 8 && spec_has_piece(board, piece, by, (nr * 8 + nf) as u8)
}

/// Whether one of the first `j` knight offsets from `sq` holds a knight of
/// `by`.
pub open spec fn spec_knight_attack_upto(board: Board, sq: u8, by: Color, j: int) -> bool
    decreases j,
{
    if j <= 0 {
        false
    } else {
        spec_knight_attack_upto(board, sq, by, j - 1) || {
            let (dr, df) = spec_knight_offset(j - 1);
            spec_offset_attack(board, sq, Piece::Knight, by, dr, df)
        }
    }
}

/// Whether one of the first `j` king offsets from `sq` holds the king of
/// `by`.
pub open spec fn spec_king_attack_upto(board: Board, sq: u8, by: Color, j: int) -> bool
    decreases j,
{
    if j <= 0 {
        false
    } else {
        spec_king_attack_upto(board, sq, by, j - 1) || {
            let (dr, df) = spec_king_offset(j - 1);
            spec_offset_attack(board, sq, Piece::King, by, dr, df)
        }
    }
}

/// Whether the sliding ray from `(r, f)` in direction `(dr, df)` reaches,
/// within `fuel` steps and before any other piece, a rook or queen of `by`
/// on a straight ray, or a bishop or queen of `by` on a diagonal one.
pub open spec fn spec_ray_attack_from(
    board: Board,
    by: Color,
    r: int,
    f: int,
    dr: int,
    df: int,
    straight: bool,
    fuel: nat,
) -> bool
    decreases fuel,
{
    if fuel == 0 {
        false
    } else {
        let nr = r + dr;
        let nf = f + df;
        if 0 <= nr < 8 && 0 <= nf < 8 {
            match spec_piece_at(board, (nr * 8 + nf) as u8) {
                Some((p, pc)) => pc == by && (if straight {
                    p == Piece::Rook || p == Piece::Queen
                } else {
                    p == Piece::Bishop || p == Piece::Queen
                }),
                None => spec_ray_attack_from(board, by, nr, nf, dr, df, straight, (fuel - 1) as nat),
            }
        } else {
            false
        }
    }
}

/// The slider direction at position `d` of the fixed table: the four
/// straight directions first, then the four diagonals.
pub open spec fn spec_slider_dir(d: int) -> (int, int) {
    if d == 0 {
        (1, 0)
    } else if d == 1 {
        (0, 1)
    } else if d == 2 {
        (-1, 0)
    } else if d == 3 {
        (0, -1)
    } else if d == 4 {
        (1, 1)
    } else if d == 5 {
        (1, -1)
    } else if d == 6 {
        (-1, 1)
    } else {
        (-1, -1)
    }
}

/// Whether one of the first `d` slider directions from `sq` carries an
/// attack by `by`.
pub open spec fn spec_slider_attack_upto(board: Board, sq: u8, by: Color, d: int) -> bool
    decreases d,
{
    if d <= 0 {
        false
    } else {
        spec_slider_attack_upto(board, sq, by, d - 1) || {
            let (dr, df) = spec_slider_dir(d - 1);
            spec_ray_attack_from(
                board,
                by,
                spec_rank(sq) as int,
                spec_file(sq) as int,
                dr,
                df,
                d - 1 < 4,
                7,
            )
        }
    }
}

/// Whether `by` attacks `sq`: some pawn, knight, king, or sliding piece of
/// `by` could reach `sq` by its own movement pattern, sliding rays stopping
/// at the first occupied square.
pub open spec fn spec_attacked(board: Board, sq: u8, by: Color) -> bool {
    spec_pawn_attack(board, sq, by) || spec_knight_attack_upto(board, sq, by, 8)
        || spec_king_attack_upto(board, sq, by, 8) || spec_slider_attack_upto(board, sq, by, 8)
}

/// The king's start square of `color`.
pub open spec fn spec_king_start(color: Color) -> u8 {
    match color {
        Color::White => 4,
        Color::Black => 60,
    }
}

/// The kingside castle move of `color`, when its rights flag is set, the two
/// squares between king and rook are empty, and neither the king's square nor
/// either square it crosses is attacked by the opponent.
pub open spec fn spec_castle_kingside(board: Board, color: Color) -> Seq<Moves> {
    let k = spec_king_start(color);
    let flag = match color {
        Color::White => Board::castle_wk(),
        Color::Black => Board::castle_bk(),
    };
    if board.castling_rights & flag != 0 && spec_piece_at(board, (k + 1) as u8) is None
        && spec_piece_at(board, (k + 2) as u8) is None && !spec_attacked(
        board,
        k,
        color.spec_opponent(),
    ) && !spec_attacked(board, (k + 1) as u8, color.spec_opponent()) && !spec_attacked(
        board,
        (k + 2) as u8,
        color.spec_opponent(),
    ) {
        seq![Moves { from: k, to: (k + 2) as u8, move_type: MoveType::Castle }]
    } else {
        Seq::empty()
    }
}

/// The queenside castle move of `color`, when its rights flag is set, the
/// three squares between king and rook are empty, and neither the king's
/// square nor either square it crosses is attacked by the opponent.
pub open spec fn spec_castle_queenside(board: Board, color: Color) -> Seq<Moves> {
    let k = spec_king_start(color);
    let flag = match color {
        Color::White => Board::castle_wq(),
        Color::Black => Board::castle_bq(),
    };
    if board.castling_rights & flag != 0 && spec_piece_at(board, (k - 1) as u8) is None
        && spec_piece_at(board, (k - 2) as u8) is None && spec_piece_at(board, (k - 3) as u8)
        is None && !spec_attacked(board, k, color.spec_opponent()) && !spec_attacked(
        board,
        (k - 1) as u8,
        color.spec_opponent(),
    ) && !spec_attacked(board, (k - 2) as u8, color.spec_opponent()) {
        seq![Moves { from: k, to: (k - 2) as u8, move_type: MoveType::Castle }]
    } else {
        Seq::empty()
    }
}

/// The castle moves of `color`: kingside first, then queenside.
pub open spec fn spec_castle_moves(board: Board, color: Color) -> Seq<Moves> {
    spec_castle_kingside(board, color) + spec_castle_queenside(board, color)
}

/// All pseudo-legal moves of a single piece of the given kind and color on
/// `sq`.
pub open spec fn spec_piece_moves(board: Board, sq: u8, color: Color, piece: Piece) -> Seq<Moves> {
    match piece {
        Piece::Pawn => spec_pawn_moves(board, sq, color),
        Piece::Knight => spec_knight_moves(board, sq, color),
        Piece::Bishop => spec_bishop_moves(board, sq, color),
        Piece::Rook => spec_rook_moves(board, sq, color),
        Piece::Queen => spec_queen_moves(board, sq, color),
        Piece::King => spec_king_moves(board, sq, color),
    }
}

/// The moves of the pieces on the first `i` squares of `squares`.
pub open spec fn spec_moves_for_squares(
    board: Board,
    color: Color,
    piece: Piece,
    squares: Seq<u8>,
    i: int,
) -> Seq<Moves>
    decreases i,
{
    if i <= 0 {
        Seq::empty()
    } else {
        spec_moves_for_squares(board, color, piece, squares, i - 1) + spec_piece_moves(
            board,
            squares[i - 1],
            color,
            piece,
        )
    }
}

/// All pseudo-legal moves of the pieces of one kind belonging to `color`,
/// walking that kind's squares in ascending order.
pub open spec fn spec_piece_kind_moves(board: Board, color: Color, piece: Piece) -> Seq<Moves> {
    let squares = spec_bb_squares(spec_get_bb(board, piece, color));
    spec_moves_for_squares(board, color, piece, squares, squares.len() as int)
}

/// All pseudo-legal moves of `color`: pawns, knights, bishops, rooks,
/// queens, the king, then the castle moves, in that fixed order.
pub open spec fn spec_all_moves(board: Board, color: Color) -> Seq<Moves> {
    spec_piece_kind_moves(board, color, Piece::Pawn) + spec_piece_kind_moves(
        board,
        color,
        Piece::Knight,
    ) + spec_piece_kind_moves(board, color, Piece::Bishop) + spec_piece_kind_moves(
        board,
        color,
        Piece::Rook,
    ) + spec_piece_kind_moves(board, color, Piece::Queen) + spec_piece_kind_moves(
        board,
        color,
        Piece::King,
    ) + spec_castle_moves(board, color)
}

/// The square of the king of `color`, when one stands on the board: the
/// lowest-numbered square of the king's square-set.
pub open spec fn spec_king_square(board: Board, color: Color) -> Option<u8> {
    let squares = spec_bb_squares(spec_get_bb(board, Piece::King, color));
    if squares.len() > 0 {
        Some(squares[0])
    } else {
        None
    }
}

/// Whether `color` has a king on the board.
pub open spec fn spec_has_king(board: Board, color: Color) -> bool {
    spec_king_square(board, color) is Some
}

/// Whether applying `mv` leaves the king of `color` safe: after the move
/// the mover's king is not attacked by the opponent. A move whose squares
/// leave the board is not legal; a mover with no king on the board cannot
/// be left in check, so its moves pass the filter.
pub open spec fn spec_is_legal(board: Board, mv: Moves, color: Color) -> bool {
    mv.from < 64 && mv.to < 64 && {
        let after = spec_make_move(board, mv);
        match spec_king_square(after, color) {
            None => true,
            Some(k) => !spec_attacked(after, k, color.spec_opponent()),
        }
    }
}

/// The legal moves among the first `i` entries of `all`, in order.
pub open spec fn spec_filter_legal(board: Board, color: Color, all: Seq<Moves>, i: int) -> Seq<
    Moves,
>
    decreases i,
{
    if i <= 0 {
        Seq::empty()
    } else {
        spec_filter_legal(board, color, all, i - 1) + if spec_is_legal(board, all[i - 1], color) {
            seq![all[i - 1]]
        } else {
            Seq::empty()
        }
    }
}

/// All legal moves of `color`: the pseudo-legal moves whose application
/// leaves the mover's own king safe, in generation order.
pub open spec fn spec_legal_moves(board: Board, color: Color) -> Seq<Moves> {
    spec_filter_legal(board, color, spec_all_moves(board, color), spec_all_moves(board, color).len() as int)
}

/// Whether the king of `color` is attacked by the opponent on the current
/// board. The value is false when no king of `color` stands on the board;
/// the executable predicate excludes that malformed case instead.
pub open spec fn spec_in_check(board: Board, color: Color) -> bool {
    match spec_king_square(board, color) {
        None => false,
        Some(k) => spec_attacked(board, k, color.spec_opponent()),
    }
}

/// Checkmate: in check with no legal move.
pub open spec fn spec_checkmate(board: Board, color: Color) -> bool {
    spec_in_check(board, color) && spec_legal_moves(board, color).len() == 0
}

/// Stalemate: not in check, yet no legal move.
pub open spec fn spec_stalemate(board: Board, color: Color) -> bool {
    !spec_in_check(board, color) && spec_legal_moves(board, color).len() == 0
}

/// A pawn yields at most 14 moves: a four-way promotion fan or a push and a
/// double push forward, at most four per capture side, and one en-passant
/// capture per side.
pub proof fn lemma_pawn_moves_len(board: Board, square: u8, color: Color)
    ensures
        spec_pawn_moves(board, square, color).len() <= 14,
{
    assert(spec_pawn_forward(board, square, color).len() <= 4);
    assert(spec_pawn_capture(board, square, color, true).len() <= 4);
    assert(spec_pawn_capture(board, square, color, false).len() <= 4);
    assert(spec_pawn_ep(board, square, color, true).len() <= 1);
    assert(spec_pawn_ep(board, square, color, false).len() <= 1);
}

/// A sliding ray yields at most one move per step of fuel.
pub proof fn lemma_ray_len(
    board: Board,
    from_sq: u8,
    color: Color,
    r: int,
    f: int,
    dr: int,
    df: int,
    fuel: nat,
)
    ensures
        spec_ray_moves_from(board, from_sq, color, r, f, dr, df, fuel).len() <= fuel,
    decreases fuel,
{
    if fuel > 0 {
        lemma_ray_len(board, from_sq, color, r + dr, f + df, dr, df, (fuel - 1) as nat);
    }
}

/// A knight or king offset table yields at most one move per offset.
pub proof fn lemma_offset_prefix_len(board: Board, square: u8, color: Color, j: int)
    requires
        0 <= j,
    ensures
        spec_knight_prefix(board, square, color, j).len() <= j,
        spec_king_prefix(board, square, color, j).len() <= j,
    decreases j,
{
    if j > 0 {
        lemma_offset_prefix_len(board, square, color, j - 1);
    }
}

/// No single piece yields more than 56 moves.
#[verifier::spinoff_prover]
#[verifier::rlimit(60)]
pub proof fn lemma_piece_moves_len(board: Board, square: u8, color: Color, piece: Piece)
    ensures
        spec_piece_moves(board, square, color, piece).len() <= 56,
{
    let r = spec_rank(square) as int;
    let f = spec_file(square) as int;
    lemma_pawn_moves_len(board, square, color);
    lemma_offset_prefix_len(board, square, color, 8);
    lemma_ray_len(board, square, color, r, f, 1, 0, 7);
    lemma_ray_len(board, square, color, r, f, 0, 1, 7);
    lemma_ray_len(board, square, color, r, f, -1, 0, 7);
    lemma_ray_len(board, square, color, r, f, 0, -1, 7);
    lemma_ray_len(board, square, color, r, f, 1, 1, 7);
    lemma_ray_len(board, square, color, r, f, 1, -1, 7);
    lemma_ray_len(board, square, color, r, f, -1, 1, 7);
    lemma_ray_len(board, square, color, r, f, -1, -1, 7);
}

/// The moves of `i` squares' pieces number at most 56 each.
pub proof fn lemma_moves_for_squares_len(
    board: Board,
    color: Color,
    piece: Piece,
    squares: Seq<u8>,
    i: int,
)
    requires
        0 <= i,
    ensures
        spec_moves_for_squares(board, color, piece, squares, i).len() <= 56 * i,
    decreases i,
{
    if i > 0 {
        lemma_moves_for_squares_len(board, color, piece, squares, i - 1);
        lemma_piece_moves_len(board, squares[i - 1], color, piece);
    }
}

/// A whole color yields at most 21506 pseudo-legal moves.
pub proof fn lemma_all_moves_len(board: Board, color: Color)
    ensures
        spec_all_moves(board, color).len() <= 21506,
{
    let kinds = seq![Piece::Pawn, Piece::Knight, Piece::Bishop, Piece::Rook, Piece::Queen, Piece::King];
    assert forall|k: int| 0 <= k < 6 implies #[trigger] spec_piece_kind_moves(
        board,
        color,
        kinds[k],
    ).len() <= 3584 by {
        let piece = kinds[k];
        let squares = spec_bb_squares(spec_get_bb(board, piece, color));
        lemma_bb_squares_prefix_props(spec_get_bb(board, piece, color), 64);
        lemma_moves_for_squares_len(board, color, piece, squares, squares.len() as int);
    }
    assert(spec_piece_kind_moves(board, color, Piece::Pawn).len() <= 3584);
    assert(spec_piece_kind_moves(board, color, Piece::Knight).len() <= 3584);
    assert(spec_piece_kind_moves(board, color, Piece::Bishop).len() <= 3584);
    assert(spec_piece_kind_moves(board, color, Piece::Rook).len() <= 3584);
    assert(spec_piece_kind_moves(board, color, Piece::Queen).len() <= 3584);
    assert(spec_piece_kind_moves(board, color, Piece::King).len() <= 3584);
    assert(spec_castle_moves(board, color).len() <= 2);
}

/// Every pseudo-legal pawn move is placement-safe: it can only put a piece
/// on a square that is free by then.
#[verifier::spinoff_prover]
#[verifier::rlimit(60)]
pub proof fn lemma_pawn_moves_safe(board: Board, square: u8, color: Color)
    requires
        square < 64,
        spec_ep_ok(board),
    ensures
        forall|k: int|
            0 <= k < spec_pawn_moves(board, square, color).len() ==> spec_move_safe(
                board,
                #[trigger] spec_pawn_moves(board, square, color)[k],
            ),
{
    let fwd = spec_pawn_forward(board, square, color);
    let capl = spec_pawn_capture(board, square, color, true);
    let capr = spec_pawn_capture(board, square, color, false);
    let epl = spec_pawn_ep(board, square, color, true);
    let epr = spec_pawn_ep(board, square, color, false);
    assert forall|k: int| 0 <= k < fwd.len() implies spec_move_safe(board, fwd[k]) by {
    }
    assert forall|k: int| 0 <= k < capl.len() implies spec_move_safe(board, capl[k]) by {
    }
    assert forall|k: int| 0 <= k < capr.len() implies spec_move_safe(board, capr[k]) by {
    }
    assert forall|k: int| 0 <= k < epl.len() implies spec_move_safe(board, epl[k]) by {
    }
    assert forall|k: int| 0 <= k < epr.len() implies spec_move_safe(board, epr[k]) by {
    }
    assert forall|k: int|
        0 <= k < spec_pawn_moves(board, square, color).len() implies spec_move_safe(
        board,
        #[trigger] spec_pawn_moves(board, square, color)[k],
    ) by {
        let whole = spec_pawn_moves(board, square, color);
        if k < fwd.len() {
            assert(whole[k] == fwd[k]);
        } else if k < fwd.len() + capl.len() {
            assert(whole[k] == capl[k - fwd.len()]);
        } else if k < fwd.len() + capl.len() + capr.len() {
            assert(whole[k] == capr[k - fwd.len() - capl.len()]);
        } else if k < fwd.len() + capl.len() + capr.len() + epl.len() {
            assert(whole[k] == epl[k - fwd.len() - capl.len() - capr.len()]);
        } else {
            assert(whole[k] == epr[k - fwd.len() - capl.len() - capr.len() - epl.len()]);
        }
    }
}

/// Every move of one fixed offset is placement-safe.
pub proof fn lemma_offset_move_safe(board: Board, square: u8, color: Color, dr: int, df: int)
    requires
        square < 64,
    ensures
        forall|k: int|
            0 <= k < spec_offset_move(board, square, color, dr, df).len() ==> spec_move_safe(
                board,
                #[trigger] spec_offset_move(board, square, color, dr, df)[k],
            ),
{
}

/// Every knight or king move of the first `j` offsets is placement-safe.
pub proof fn lemma_offset_prefix_safe(board: Board, square: u8, color: Color, j: int)
    requires
        square < 64,
    ensures
        forall|k: int|
            0 <= k < spec_knight_prefix(board, square, color, j).len() ==> spec_move_safe(
                board,
                #[trigger] spec_knight_prefix(board, square, color, j)[k],
            ),
        forall|k: int|
            0 <= k < spec_king_prefix(board, square, color, j).len() ==> spec_move_safe(
                board,
                #[trigger] spec_king_prefix(board, square, color, j)[k],
            ),
    decreases j,
{
    if j > 0 {
        lemma_offset_prefix_safe(board, square, color, j - 1);
        let (ndr, ndf) = spec_knight_offset(j - 1);
        lemma_offset_move_safe(board, square, color, ndr, ndf);
        let (kdr, kdf) = spec_king_offset(j - 1);
        lemma_offset_move_safe(board, square, color, kdr, kdf);
        let nprev = spec_knight_prefix(board, square, color, j - 1);
        let ncur = spec_knight_prefix(board, square, color, j);
        assert forall|k: int| 0 <= k < ncur.len() implies spec_move_safe(board, ncur[k]) by {
            if k < nprev.len() {
                assert(ncur[k] == nprev[k]);
            } else {
                assert(ncur[k] == spec_offset_move(board, square, color, ndr, ndf)[k - nprev.len()]);
            }
        }
        let kprev = spec_king_prefix(board, square, color, j - 1);
        let kcur = spec_king_prefix(board, square, color, j);
        assert forall|k: int| 0 <= k < kcur.len() implies spec_move_safe(board, kcur[k]) by {
            if k < kprev.len() {
                assert(kcur[k] == kprev[k]);
            } else {
                assert(kcur[k] == spec_offset_move(board, square, color, kdr, kdf)[k - kprev.len()]);
            }
        }
    }
}

/// Every move of a sliding ray is placement-safe.
pub proof fn lemma_ray_safe(
    board: Board,
    from_sq: u8,
    color: Color,
    r: int,
    f: int,
    dr: int,
    df: int,
    fuel: nat,
)
    requires
        from_sq < 64,
    ensures
        forall|k: int|
            0 <= k < spec_ray_moves_from(board, from_sq, color, r, f, dr, df, fuel).len()
                ==> spec_move_safe(
                board,
                #[trigger] spec_ray_moves_from(board, from_sq, color, r, f, dr, df, fuel)[k],
            ),
    decreases fuel,
{
    if fuel > 0 {
        lemma_ray_safe(board, from_sq, color, r + dr, f + df, dr, df, (fuel - 1) as nat);
        let cur = spec_ray_moves_from(board, from_sq, color, r, f, dr, df, fuel);
        let rest = spec_ray_moves_from(
            board,
            from_sq,
            color,
            r + dr,
            f + df,
            dr,
            df,
            (fuel - 1) as nat,
        );
        assert forall|k: int| 0 <= k < cur.len() implies spec_move_safe(board, cur[k]) by {
            let nr = r + dr;
            let nf = f + df;
            if 0 <= nr < 8 && 0 <= nf < 8 && spec_piece_at(board, (nr * 8 + nf) as u8) is None {
                if k > 0 {
                    assert(cur[k] == rest[k - 1]);
                }
            }
        }
    }
}

/// Every move a single piece generates is placement-safe.
#[verifier::spinoff_prover]
#[verifier::rlimit(60)]
pub proof fn lemma_piece_moves_safe(board: Board, square: u8, color: Color, piece: Piece)
    requires
        square < 64,
        spec_ep_ok(board),
    ensures
        forall|k: int|
            0 <= k < spec_piece_moves(board, square, color, piece).len() ==> spec_move_safe(
                board,
                #[trigger] spec_piece_moves(board, square, color, piece)[k],
            ),
{
    let r = spec_rank(square) as int;
    let f = spec_file(square) as int;
    lemma_pawn_moves_safe(board, square, color);
    lemma_offset_prefix_safe(board, square, color, 8);
    lemma_ray_safe(board, square, color, r, f, 1, 0, 7);
    lemma_ray_safe(board, square, color, r, f, 0, 1, 7);
    lemma_ray_safe(board, square, color, r, f, -1, 0, 7);
    lemma_ray_safe(board, square, color, r, f, 0, -1, 7);
    lemma_ray_safe(board, square, color, r, f, 1, 1, 7);
    lemma_ray_safe(board, square, color, r, f, 1, -1, 7);
    lemma_ray_safe(board, square, color, r, f, -1, 1, 7);
    lemma_ray_safe(board, square, color, r, f, -1, -1, 7);
}

/// Every move generated for one piece kind is placement-safe.
pub proof fn lemma_moves_for_squares_safe(
    board: Board,
    color: Color,
    piece: Piece,
    squares: Seq<u8>,
    i: int,
)
    requires
        spec_ep_ok(board),
        forall|k: int| 0 <= k < squares.len() ==> squares[k] < 64,
        i <= squares.len(),
    ensures
        forall|k: int|
            0 <= k < spec_moves_for_squares(board, color, piece, squares, i).len()
                ==> spec_move_safe(
                board,
                #[trigger] spec_moves_for_squares(board, color, piece, squares, i)[k],
            ),
    decreases i,
{
    if i > 0 {
        lemma_moves_for_squares_safe(board, color, piece, squares, i - 1);
        lemma_piece_moves_safe(board, squares[i - 1], color, piece);
        let prev = spec_moves_for_squares(board, color, piece, squares, i - 1);
        let cur = spec_moves_for_squares(board, color, piece, squares, i);
        assert forall|k: int| 0 <= k < cur.len() implies spec_move_safe(board, cur[k]) by {
            if k < prev.len() {
                assert(cur[k] == prev[k]);
            } else {
                assert(cur[k] == spec_piece_moves(board, squares[i - 1], color, piece)[k
                    - prev.len()]);
            }
        }
    }
}

/// Every castle move is placement-safe.
pub proof fn lemma_castle_moves_safe(board: Board, color: Color)
    ensures
        forall|k: int|
            0 <= k < spec_castle_moves(board, color).len() ==> spec_move_safe(
                board,
                #[trigger] spec_castle_moves(board, color)[k],
            ),
{
}

/// Every pseudo-legal move is placement-safe, provided the board's
/// en-passant target, if set, names an empty square — as it does in every
/// position arising in play.
pub proof fn lemma_all_moves_safe(board: Board, color: Color)
    requires
        spec_ep_ok(board),
    ensures
        forall|k: int|
            0 <= k < spec_all_moves(board, color).len() ==> spec_move_safe(
                board,
                #[trigger] spec_all_moves(board, color)[k],
            ),
{
    let kinds = seq![Piece::Pawn, Piece::Knight, Piece::Bishop, Piece::Rook, Piece::Queen, Piece::King];
    assert forall|j: int, k: int|
        0 <= j < 6 && 0 <= k < spec_piece_kind_moves(board, color, kinds[j]).len()
        implies spec_move_safe(board, #[trigger] spec_piece_kind_moves(board, color, kinds[j])[k]) by {
        let piece = kinds[j];
        let squares = spec_bb_squares(spec_get_bb(board, piece, color));
        lemma_bb_squares_prefix_props(spec_get_bb(board, piece, color), 64);
        lemma_moves_for_squares_safe(board, color, piece, squares, squares.len() as int);
    }
    lemma_castle_moves_safe(board, color);
    let s0 = spec_piece_kind_moves(board, color, Piece::Pawn);
    let s1 = spec_piece_kind_moves(board, color, Piece::Knight);
    let s2 = spec_piece_kind_moves(board, color, Piece::Bishop);
    let s3 = spec_piece_kind_moves(board, color, Piece::Rook);
    let s4 = spec_piece_kind_moves(board, color, Piece::Queen);
    let s5 = spec_piece_kind_moves(board, color, Piece::King);
    let s6 = spec_castle_moves(board, color);
    assert(s0 == spec_piece_kind_moves(board, color, kinds[0]));
    assert(s1 == spec_piece_kind_moves(board, color, kinds[1]));
    assert(s2 == spec_piece_kind_moves(board, color, kinds[2]));
    assert(s3 == spec_piece_kind_moves(board, color, kinds[3]));
    assert(s4 == spec_piece_kind_moves(board, color, kinds[4]));
    assert(s5 == spec_piece_kind_moves(board, color, kinds[5]));
    assert forall|k: int|
        0 <= k < spec_all_moves(board, color).len() implies spec_move_safe(
        board,
        #[trigger] spec_all_moves(board, color)[k],
    ) by {
        let whole = spec_all_moves(board, color);
        let l0 = s0.len() as int;
        let l1 = l0 + s1.len();
        let l2 = l1 + s2.len();
        let l3 = l2 + s3.len();
        let l4 = l3 + s4.len();
        let l5 = l4 + s5.len();
        if k < l0 {
            assert(whole[k] == s0[k]);
        } else if k < l1 {
            assert(whole[k] == s1[k - l0]);
        } else if k < l2 {
            assert(whole[k] == s2[k - l1]);
        } else if k < l3 {
            assert(whole[k] == s3[k - l2]);
        } else if k < l4 {
            assert(whole[k] == s4[k - l3]);
        } else if k < l5 {
            assert(whole[k] == s5[k - l4]);
        } else {
            assert(whole[k] == s6[k - l5]);
        }
    }
}

/// Promotion fan-out: a pawn one step from its promotion rank with an empty
/// square ahead, nothing to capture on either diagonal and no en-passant
/// target yields exactly four pseudo-legal moves, all tagged as promotions,
/// choosing queen, rook, bishop and knight exactly once each.
pub proof fn lemma_promotion_fanout(board: Board, square: u8, color: Color)
    requires
        square < 64,
        spec_rank(square) == spec_promo_rank(color),
        spec_piece_at(board, spec_pawn_fwd_to(square, color) as u8) is None,
        0 <= spec_pawn_fwd_to(square, color) < 64,
        forall|left: bool|
            {
                let t = #[trigger] spec_pawn_cap_to(square, color, left);
                !(0 <= t < 64) || spec_piece_at(board, t as u8) is None || spec_piece_at(
                    board,
                    t as u8,
                )->Some_0.1 == color
            },
        board.en_passant is None,
    ensures
        spec_pawn_moves(board, square, color) == spec_promotions(
            square,
            spec_pawn_fwd_to(square, color) as u8,
            false,
        ),
        spec_pawn_moves(board, square, color).len() == 4,
        spec_pawn_moves(board, square, color)[0].move_type == (MoveType::Promotion {
            piece: Piece::Queen,
        }),
        spec_pawn_moves(board, square, color)[1].move_type == (MoveType::Promotion {
            piece: Piece::Rook,
        }),
        spec_pawn_moves(board, square, color)[2].move_type == (MoveType::Promotion {
            piece: Piece::Bishop,
        }),
        spec_pawn_moves(board, square, color)[3].move_type == (MoveType::Promotion {
            piece: Piece::Knight,
        }),
{
    assert(spec_pawn_capture(board, square, color, true) =~= Seq::<Moves>::empty());
    assert(spec_pawn_capture(board, square, color, false) =~= Seq::<Moves>::empty());
    assert(spec_pawn_moves(board, square, color) =~= spec_promotions(
        square,
        spec_pawn_fwd_to(square, color) as u8,
        false,
    ));
}

/// En-passant gating: an en-passant capture is generated only when the
/// board's en-passant target equals the move's diagonal destination and the
/// square beside the origin, at the destination's file, holds an opposing
/// pawn.
pub proof fn lemma_ep_gating(board: Board, square: u8, color: Color, k: int)
    requires
        square < 64,
        0 <= k < spec_pawn_moves(board, square, color).len(),
        spec_pawn_moves(board, square, color)[k].move_type is EnPassant,
    ensures
        ({
            let mv = spec_pawn_moves(board, square, color)[k];
            &&& mv.from == square
            &&& board.en_passant == Some(mv.to)
            &&& spec_piece_at(board, spec_ep_square(mv)) == Some(
                (Piece::Pawn, color.spec_opponent()),
            )
        }),
{
    let whole = spec_pawn_moves(board, square, color);
    let fwd = spec_pawn_forward(board, square, color);
    let capl = spec_pawn_capture(board, square, color, true);
    let capr = spec_pawn_capture(board, square, color, false);
    let epl = spec_pawn_ep(board, square, color, true);
    let epr = spec_pawn_ep(board, square, color, false);
    assert forall|j: int| 0 <= j < fwd.len() implies !(fwd[j].move_type is EnPassant) by {}
    assert forall|j: int| 0 <= j < capl.len() implies !(capl[j].move_type is EnPassant) by {}
    assert forall|j: int| 0 <= j < capr.len() implies !(capr[j].move_type is EnPassant) by {}
    if k < fwd.len() {
        assert(whole[k] == fwd[k]);
    } else if k < fwd.len() + capl.len() {
        assert(whole[k] == capl[k - fwd.len()]);
    } else if k < fwd.len() + capl.len() + capr.len() {
        assert(whole[k] == capr[k - fwd.len() - capl.len()]);
    } else if k < fwd.len() + capl.len() + capr.len() + epl.len() {
        assert(whole[k] == epl[k - fwd.len() - capl.len() - capr.len()]);
        lemma_ep_block_square(board, square, color, true);
    } else {
        assert(whole[k] == epr[k - fwd.len() - capl.len() - capr.len() - epl.len()]);
        lemma_ep_block_square(board, square, color, false);
    }
}

/// The pawn an en-passant block points at stands beside the origin, at the
/// destination's file.
proof fn lemma_ep_block_square(board: Board, square: u8, color: Color, left: bool)
    requires
        square < 64,
    ensures
        forall|j: int|
            0 <= j < spec_pawn_ep(board, square, color, left).len() ==> {
                let mv = #[trigger] spec_pawn_ep(board, square, color, left)[j];
                &&& mv.from == square
                &&& board.en_passant == Some(mv.to)
                &&& spec_piece_at(board, spec_ep_square(mv)) == Some(
                    (Piece::Pawn, color.spec_opponent()),
                )
            },
{
    if spec_pawn_ep(board, square, color, left).len() > 0 {
        let mv = spec_pawn_ep(board, square, color, left)[0];
        let t = spec_pawn_cap_to(square, color, left);
        let adj = if left {
            square - 1
        } else {
            square + 1
        };
        assert(square == 8 * (square / 8) + square % 8) by (nonlinear_arith);
        assert(t == 8 * ((t as u8) / 8) + (t as u8) % 8) by (nonlinear_arith)
            requires
                0 <= t < 64,
        ;
        assert(spec_ep_square(mv) == adj);
    }
}

/// Applying an en-passant capture removes the opposing pawn from the square
/// beside the origin — the one at the destination's file on the origin's
/// rank — and lands the capturing pawn on the destination square, which held
/// nothing.
#[verifier::rlimit(60)]
pub proof fn lemma_ep_application(board: Board, mv: Moves)
    requires
        spec_wf(board),
        mv.from < 64,
        mv.to < 64,
        mv.move_type is EnPassant,
        spec_piece_at(board, mv.from) matches Some((Piece::Pawn, _)),
        spec_piece_at(board, mv.to) is None,
        spec_piece_at(board, spec_ep_square(mv)) == Some(
            (Piece::Pawn, spec_piece_at(board, mv.from)->Some_0.1.spec_opponent()),
        ),
        spec_ep_square(mv) != mv.from,
        spec_ep_square(mv) != mv.to,
    ensures
        spec_piece_at(spec_make_move(board, mv), spec_ep_square(mv)) is None,
        spec_piece_at(spec_make_move(board, mv), mv.to) == Some(
            (Piece::Pawn, spec_piece_at(board, mv.from)->Some_0.1),
        ),
{
    let color = spec_piece_at(board, mv.from)->Some_0.1;
    let after = spec_make_move(board, mv);
    let eps = spec_ep_square(mv);
    assert forall|p: Piece, c: Color| !spec_has_piece(after, p, c, eps) by {
        lemma_move_membership(board, mv, p, c, eps);
        lemma_piece_at_wf(board, eps);
    }
    lemma_no_membership_empty(after, eps);
    assert forall|p: Piece, c: Color| #[trigger] spec_has_piece(after, p, c, mv.to) implies p
        == Piece::Pawn && c == color by {
        lemma_move_membership(board, mv, p, c, mv.to);
        lemma_piece_at_wf(board, mv.to);
    }
    lemma_move_membership(board, mv, Piece::Pawn, color, mv.to);
    lemma_unique_membership_piece_at(after, mv.to, Piece::Pawn, color);
}

/// Castling legality: a castle move is generated only when the matching
/// rights flag is set, every square between king and rook is empty, and
/// neither the king's start square nor either square it crosses — its
/// destination included — is attacked by the opponent.
pub proof fn lemma_castle_gating(board: Board, color: Color, k: int)
    requires
        0 <= k < spec_castle_moves(board, color).len(),
    ensures
        ({
            let mv = spec_castle_moves(board, color)[k];
            let opp = color.spec_opponent();
            &&& mv.move_type is Castle
            &&& mv.from == spec_king_start(color)
            &&& (mv.to == mv.from + 2 || mv.from == mv.to + 2)
            &&& !spec_attacked(board, mv.from, opp)
            &&& !spec_attacked(board, ((mv.from + mv.to) / 2) as u8, opp)
            &&& !spec_attacked(board, mv.to, opp)
            &&& spec_piece_at(board, ((mv.from + mv.to) / 2) as u8) is None
            &&& spec_piece_at(board, mv.to) is None
            &&& (mv.to == mv.from + 2 ==> board.castling_rights & (match color {
                Color::White => Board::castle_wk(),
                Color::Black => Board::castle_bk(),
            }) != 0)
            &&& (mv.from == mv.to + 2 ==> board.castling_rights & (match color {
                Color::White => Board::castle_wq(),
                Color::Black => Board::castle_bq(),
            }) != 0 && spec_piece_at(board, (mv.to - 1) as u8) is None)
        }),
{
    let ks = spec_castle_kingside(board, color);
    let qs = spec_castle_queenside(board, color);
    if k < ks.len() {
        assert(spec_castle_moves(board, color)[k] == ks[0]);
    } else {
        assert(spec_castle_moves(board, color)[k] == qs[0]);
    }
}

/// Disjointness is kept by play: applying any generated pseudo-legal move to
/// a well-formed board — twelve pairwise-disjoint square-sets and a sound
/// en-passant target — yields a board with the same two properties, so every
/// reachable position keeps its square-sets pairwise disjoint.
pub proof fn lemma_generated_move_keeps_disjoint(board: Board, color: Color, k: int)
    requires
        spec_wf(board),
        spec_ep_ok(board),
        0 <= k < spec_all_moves(board, color).len(),
    ensures
        spec_wf(spec_make_move(board, spec_all_moves(board, color)[k])),
        spec_ep_ok(spec_make_move(board, spec_all_moves(board, color)[k])),
{
    lemma_all_moves_safe(board, color);
    lemma_make_move_preserves_wf(board, spec_all_moves(board, color)[k]);
}

/// Every move the legality filter keeps came from the list it filtered.
pub proof fn lemma_filter_legal_contained(board: Board, color: Color, all: Seq<Moves>, i: int)
    requires
        0 <= i <= all.len(),
    ensures
        forall|k: int|
            0 <= k < spec_filter_legal(board, color, all, i).len() ==> all.contains(
                #[trigger] spec_filter_legal(board, color, all, i)[k],
            ),
    decreases i,
{
    if i > 0 {
        lemma_filter_legal_contained(board, color, all, i - 1);
        let prev = spec_filter_legal(board, color, all, i - 1);
        let cur = spec_filter_legal(board, color, all, i);
        assert forall|k: int| 0 <= k < cur.len() implies all.contains(cur[k]) by {
            if k < prev.len() {
                assert(cur[k] == prev[k]);
            } else {
                assert(cur[k] == all[i - 1]);
            }
        }
    }
}

/// Round trip: applying a legal move to a well-formed board hands the
/// opposing color a board that is itself well-formed, on which full
/// legal-move generation and the terminal predicates are defined for every
/// input — a terminal position yields an empty move list, never a failure.
pub proof fn lemma_round_trip(board: Board, color: Color, k: int)
    requires
        spec_wf(board),
        spec_ep_ok(board),
        0 <= k < spec_legal_moves(board, color).len(),
    ensures
        spec_wf(spec_make_move(board, spec_legal_moves(board, color)[k])),
        spec_ep_ok(spec_make_move(board, spec_legal_moves(board, color)[k])),
        spec_checkmate(spec_make_move(board, spec_legal_moves(board, color)[k]), color.spec_opponent())
            || spec_stalemate(
            spec_make_move(board, spec_legal_moves(board, color)[k]),
            color.spec_opponent(),
        ) ==> spec_legal_moves(
            spec_make_move(board, spec_legal_moves(board, color)[k]),
            color.spec_opponent(),
        ).len() == 0,
{
    let all = spec_all_moves(board, color);
    let mv = spec_legal_moves(board, color)[k];
    lemma_filter_legal_contained(board, color, all, all.len() as int);
    assert(all.contains(mv));
    let j = choose|j: int| 0 <= j < all.len() && all[j] == mv;
    lemma_generated_move_keeps_disjoint(board, color, j);
}

/// Every move the legality filter keeps is legal.
pub proof fn lemma_filter_legal_elems(board: Board, color: Color, all: Seq<Moves>, i: int)
    requires
        0 <= i,
    ensures
        forall|k: int|
            0 <= k < spec_filter_legal(board, color, all, i).len() ==> spec_is_legal(
                board,
                #[trigger] spec_filter_legal(board, color, all, i)[k],
                color,
            ),
    decreases i,
{
    if i > 0 {
        lemma_filter_legal_elems(board, color, all, i - 1);
        let prev = spec_filter_legal(board, color, all, i - 1);
        let cur = spec_filter_legal(board, color, all, i);
        assert forall|k: int| 0 <= k < cur.len() implies spec_is_legal(board, cur[k], color) by {
            if k < prev.len() {
                assert(cur[k] == prev[k]);
            } else {
                assert(cur[k] == all[i - 1]);
            }
        }
    }
}

/// Every legal move is legal in the filter's sense; in particular both its
/// squares lie on the board.
pub proof fn lemma_legal_moves_elems(board: Board, color: Color)
    ensures
        forall|k: int|
            0 <= k < spec_legal_moves(board, color).len() ==> spec_is_legal(
                board,
                #[trigger] spec_legal_moves(board, color)[k],
                color,
            ),
{
    let all = spec_all_moves(board, color);
    lemma_filter_legal_elems(board, color, all, all.len() as int);
}

/// For any board and color, checkmate and stalemate never hold together:
/// checkmate implies being in check and stalemate implies not being in
/// check.
pub proof fn lemma_game_state_exclusion(board: Board, color: Color)
    ensures
        !(spec_checkmate(board, color) && spec_stalemate(board, color)),
        spec_checkmate(board, color) ==> spec_in_check(board, color),
        spec_stalemate(board, color) ==> !spec_in_check(board, color),
{
}

impl Moves {
    /// A move from `from` to `to` of the given kind.
    pub fn new(from: u8, to: u8, move_type: MoveType) -> (r: Moves)
        ensures
            r == (Moves { from, to, move_type }),
    {
        Moves { from, to, move_type }
    }

    /// This move in coordinate notation, such as "e2e4" or "a7a8=Q": origin
    /// square, destination square, and the promotion suffix when the move
    /// promotes.
    pub fn to_algebraic(&self) -> (r: String)
        requires
            self.from < 64,
            self.to < 64,
        ensures
            r@ == crate::util::spec_move_text(
                self.from,
                self.to,
                match self.move_type {
                    MoveType::Promotion { piece } => Some(piece),
                    MoveType::PromotionCapture { piece } => Some(piece),
                    _ => None,
                },
            ),
    {
        let promotion = match self.move_type {
            MoveType::Promotion { piece } => Some(piece),
            MoveType::PromotionCapture { piece } => Some(piece),
            _ => None,
        };
        crate::util::move_to_algebraic(self.from, self.to, promotion)
    }

    /// Whether this move is a promotion, capturing or not.
    pub fn is_promotion(&self) -> (r: bool)
        ensures
            r == (self.move_type is Promotion || self.move_type is PromotionCapture),
    {
        match self.move_type {
            MoveType::Promotion { .. } | MoveType::PromotionCapture { .. } => true,
            _ => false,
        }
    }

    /// Whether this move takes an opposing piece: a plain capture, an
    /// en-passant capture or a capturing promotion.
    pub fn is_capture(&self) -> (r: bool)
        ensures
            r == (self.move_type is Capture || self.move_type is EnPassant || self.move_type
                is PromotionCapture),
    {
        match self.move_type {
            MoveType::Capture | MoveType::EnPassant | MoveType::PromotionCapture { .. } => true,
            _ => false,
        }
    }

    /// Append the four promotion moves from `from` to `to`, in the fixed
    /// order queen, rook, bishop, knight.
    fn add_promotions(moves: &mut Vec<Moves>, from: u8, to: u8, is_capture: bool)
        ensures
            final(moves)@ == old(moves)@ + spec_promotions(from, to, is_capture),
    {
        let kinds: [Piece; 4] = [Piece::Queen, Piece::Rook, Piece::Bishop, Piece::Knight];
        let mut j: usize = 0;
        while j < 4
            invariant
                j <= 4,
                kinds@ == seq![Piece::Queen, Piece::Rook, Piece::Bishop, Piece::Knight],
                moves@ == old(moves)@ + spec_promotions(from, to, is_capture).take(j as int),
            decreases 4 - j,
        {
            let piece = kinds[j];
            let move_type = if is_capture {
                MoveType::PromotionCapture { piece }
            } else {
                MoveType::Promotion { piece }
            };
            moves.push(Moves { from, to, move_type });
            assert(moves@ =~= old(moves)@ + spec_promotions(from, to, is_capture).take(
                j as int + 1,
            ));
            j = j + 1;
        }
        assert(moves@ =~= old(moves)@ + spec_promotions(from, to, is_capture));
    }

    /// Append the forward block of a pawn's moves.
    fn pawn_forward_into(moves: &mut Vec<Moves>, board: &Board, square: u8, color: Color)
        requires
            square < 64,
        ensures
            final(moves)@ == old(moves)@ + spec_pawn_forward(*board, square, color),
    {
        let forward_dir: i16 = match color {
            Color::White => 8,
            Color::Black => -8,
        };
        let start_rank: u8 = match color {
            Color::White => 1,
            Color::Black => 6,
        };
        let promotion_rank: u8 = match color {
            Color::White => 6,
            Color::Black => 1,
        };
        let rank = square / 8;

        let one_forward: i16 = square as i16 + forward_dir;
        if 0 <= one_forward && one_forward < 64 && board.get_piece_at(one_forward as u8).is_none() {
            if rank == promotion_rank {
                Self::add_promotions(moves, square, one_forward as u8, false);
            } else {
                moves.push(Moves { from: square, to: one_forward as u8, move_type: MoveType::Normal });
                if rank == start_rank {
                    let two_forward: i16 = square as i16 + forward_dir * 2;
                    if 0 <= two_forward && two_forward < 64 && board.get_piece_at(
                        two_forward as u8,
                    ).is_none() {
                        moves.push(
                            Moves { from: square, to: two_forward as u8, move_type: MoveType::Double },
                        );
                    }
                }
            }
        }
        assert(moves@ =~= old(moves)@ + spec_pawn_forward(*board, square, color));
    }

    /// Append one diagonal capture block of a pawn's moves.
    fn pawn_capture_into(
        moves: &mut Vec<Moves>,
        board: &Board,
        square: u8,
        color: Color,
        left: bool,
    )
        requires
            square < 64,
        ensures
            final(moves)@ == old(moves)@ + spec_pawn_capture(*board, square, color, left),
    {
        let promotion_rank: u8 = match color {
            Color::White => 6,
            Color::Black => 1,
        };
        let capture_dir: i16 = match (color, left) {
            (Color::White, true) => 7,
            (Color::White, false) => 9,
            (Color::Black, true) => -9,
            (Color::Black, false) => -7,
        };
        let rank = square / 8;
        let file = square % 8;
        let file_ok = if left {
            file > 0
        } else {
            file < 7
        };

        if file_ok {
            let capture_sq: i16 = square as i16 + capture_dir;
            if 0 <= capture_sq && capture_sq < 64 {
                if let Some((_, enemy_color)) = board.get_piece_at(capture_sq as u8) {
                    if enemy_color != color {
                        if rank == promotion_rank {
                            Self::add_promotions(moves, square, capture_sq as u8, true);
                        } else {
                            moves.push(
                                Moves {
                                    from: square,
                                    to: capture_sq as u8,
                                    move_type: MoveType::Capture,
                                },
                            );
                        }
                    }
                }
            }
        }
        assert(moves@ =~= old(moves)@ + spec_pawn_capture(*board, square, color, left));
    }

    /// Append one en-passant block of a pawn's moves.
    fn pawn_ep_into(moves: &mut Vec<Moves>, board: &Board, square: u8, color: Color, left: bool)
        requires
            square < 64,
        ensures
            final(moves)@ == old(moves)@ + spec_pawn_ep(*board, square, color, left),
    {
        let capture_dir: i16 = match (color, left) {
            (Color::White, true) => 7,
            (Color::White, false) => 9,
            (Color::Black, true) => -9,
            (Color::Black, false) => -7,
        };
        let file = square % 8;
        let file_ok = if left {
            file > 0
        } else {
            file < 7
        };

        if let Some(en_passant_square) = board.en_passant {
            if file_ok {
                let diag_sq: i16 = square as i16 + capture_dir;
                if 0 <= diag_sq && diag_sq < 64 && diag_sq as u8 == en_passant_square {
                    let adjacent_square = if left {
                        square - 1
                    } else {
                        square + 1
                    };
                    let enemy_color = color.opponent();
                    if let Some((piece, pawn_color)) = board.get_piece_at(adjacent_square) {
                        if piece == Piece::Pawn && pawn_color == enemy_color {
                            moves.push(
                                Moves {
                                    from: square,
                                    to: en_passant_square,
                                    move_type: MoveType::EnPassant,
                                },
                            );
                        }
                    }
                }
            }
        }
        assert(moves@ =~= old(moves)@ + spec_pawn_ep(*board, square, color, left));
    }

    /// All pseudo-legal moves of a pawn of `color` standing on `square`:
    /// forward pushes, diagonal captures, then en-passant captures, the lower
    /// file before the higher within each pair.
    pub fn pawn_moves(board: &Board, square: u8, color: Color) -> (r: Vec<Moves>)
        requires
            square < 64,
        ensures
            r@ == spec_pawn_moves(*board, square, color),
    {
        let mut moves: Vec<Moves> = Vec::new();
        Self::pawn_forward_into(&mut moves, board, square, color);
        Self::pawn_capture_into(&mut moves, board, square, color, true);
        Self::pawn_capture_into(&mut moves, board, square, color, false);
        Self::pawn_ep_into(&mut moves, board, square, color, true);
        Self::pawn_ep_into(&mut moves, board, square, color, false);
        assert(moves@ =~= spec_pawn_moves(*board, square, color));
        moves
    }

    /// Append the move, if any, that one fixed offset from `square` yields.
    fn offset_move_into(
        moves: &mut Vec<Moves>,
        board: &Board,
        square: u8,
        color: Color,
        dr: i16,
        df: i16,
    )
        requires
            square < 64,
            -2 <= dr <= 2,
            -2 <= df <= 2,
        ensures
            final(moves)@ == old(moves)@ + spec_offset_move(
                *board,
                square,
                color,
                dr as int,
                df as int,
            ),
    {
        let rank = square / 8;
        let file = square % 8;
        let new_rank: i16 = rank as i16 + dr;
        let new_file: i16 = file as i16 + df;
        if 0 <= new_rank && new_rank < 8 && 0 <= new_file && new_file < 8 {
            let to_square = (new_rank * 8 + new_file) as u8;
            if let Some((_, piece_color)) = board.get_piece_at(to_square) {
                if piece_color != color {
                    moves.push(Moves { from: square, to: to_square, move_type: MoveType::Capture });
                }
            } else {
                moves.push(Moves { from: square, to: to_square, move_type: MoveType::Normal });
            }
        }
        assert(moves@ =~= old(moves)@ + spec_offset_move(
            *board,
            square,
            color,
            dr as int,
            df as int,
        ));
    }

    /// The knight offset at position `j` of the fixed table.
    fn knight_offset(j: usize) -> (r: (i16, i16))
        requires
            j < 8,
        ensures
            (r.0 as int, r.1 as int) == spec_knight_offset(j as int),
            -2 <= r.0 <= 2 && -2 <= r.1 <= 2,
    {
        match j {
            0 => (2, 1),
            1 => (1, 2),
            2 => (-1, 2),
            3 => (-2, 1),
            4 => (-2, -1),
            5 => (-1, -2),
            6 => (1, -2),
            _ => (2, -1),
        }
    }

    /// The king offset at position `j` of the fixed table.
    fn king_offset(j: usize) -> (r: (i16, i16))
        requires
            j < 8,
        ensures
            (r.0 as int, r.1 as int) == spec_king_offset(j as int),
            -2 <= r.0 <= 2 && -2 <= r.1 <= 2,
    {
        match j {
            0 => (1, 0),
            1 => (1, 1),
            2 => (0, 1),
            3 => (-1, 1),
            4 => (-1, 0),
            5 => (-1, -1),
            6 => (0, -1),
            _ => (1, -1),
        }
    }

    /// All pseudo-legal moves of a knight of `color` on `square`: the eight
    /// L-shaped offsets, bounds-checked, skipping squares held by the moving
    /// color.
    pub fn knight_moves(board: &Board, square: u8, color: Color) -> (r: Vec<Moves>)
        requires
            square < 64,
        ensures
            r@ == spec_knight_moves(*board, square, color),
    {
        let mut moves: Vec<Moves> = Vec::new();
        let mut j: usize = 0;
        while j < 8
            invariant
                square < 64,
                j <= 8,
                moves@ == spec_knight_prefix(*board, square, color, j as int),
            decreases 8 - j,
        {
            let (dr, df) = Self::knight_offset(j);
            Self::offset_move_into(&mut moves, board, square, color, dr, df);
            j = j + 1;
        }
        moves
    }

    /// All pseudo-legal single-step moves of the king of `color` on `square`:
    /// the eight adjacent squares, bounds-checked, skipping squares held by
    /// the moving color. Castle moves are generated separately.
    pub fn king_moves(board: &Board, square: u8, color: Color) -> (r: Vec<Moves>)
        requires
            square < 64,
        ensures
            r@ == spec_king_moves(*board, square, color),
    {
        let mut moves: Vec<Moves> = Vec::new();
        let mut j: usize = 0;
        while j < 8
            invariant
                square < 64,
                j <= 8,
                moves@ == spec_king_prefix(*board, square, color, j as int),
            decreases 8 - j,
        {
            let (dr, df) = Self::king_offset(j);
            Self::offset_move_into(&mut moves, board, square, color, dr, df);
            j = j + 1;
        }
        moves
    }

    /// Append one sliding ray, walking from `(r, f)` in direction `(dr, df)`
    /// for at most `fuel` further steps; the first occupied square stops the
    /// walk.
    fn ray_into(
        moves: &mut Vec<Moves>,
        board: &Board,
        from_sq: u8,
        color: Color,
        r: i16,
        f: i16,
        dr: i16,
        df: i16,
        fuel: u8,
    )
        requires
            from_sq < 64,
            0 <= r < 8,
            0 <= f < 8,
            -1 <= dr <= 1,
            -1 <= df <= 1,
        ensures
            final(moves)@ == old(moves)@ + spec_ray_moves_from(
                *board,
                from_sq,
                color,
                r as int,
                f as int,
                dr as int,
                df as int,
                fuel as nat,
            ),
        decreases fuel,
    {
        if fuel == 0 {
            assert(moves@ =~= old(moves)@ + Seq::<Moves>::empty());
            return ;
        }
        let nr: i16 = r + dr;
        let nf: i16 = f + df;
        if 0 <= nr && nr < 8 && 0 <= nf && nf < 8 {
            let to_square = (nr * 8 + nf) as u8;
            if let Some((_, piece_color)) = board.get_piece_at(to_square) {
                if piece_color != color {
                    moves.push(Moves { from: from_sq, to: to_square, move_type: MoveType::Capture });
                }
            } else {
                moves.push(Moves { from: from_sq, to: to_square, move_type: MoveType::Normal });
                Self::ray_into(moves, board, from_sq, color, nr, nf, dr, df, fuel - 1);
            }
        }
        assert(moves@ =~= old(moves)@ + spec_ray_moves_from(
            *board,
            from_sq,
            color,
            r as int,
            f as int,
            dr as int,
            df as int,
            fuel as nat,
        ));
    }

    /// Append one full sliding ray from `square` in direction `(dr, df)`.
    fn ray_moves_into(moves: &mut Vec<Moves>, board: &Board, square: u8, color: Color, dr: i16, df: i16)
        requires
            square < 64,
            -1 <= dr <= 1,
            -1 <= df <= 1,
        ensures
            final(moves)@ == old(moves)@ + spec_ray_moves(*board, square, color, dr as int, df as int),
    {
        let rank = square / 8;
        let file = square % 8;
        Self::ray_into(moves, board, square, color, rank as i16, file as i16, dr, df, 7);
    }

    /// All pseudo-legal moves of a rook of `color` on `square`: the four
    /// straight rays in the fixed order up, right, down, left.
    pub fn rook_moves(board: &Board, square: u8, color: Color) -> (r: Vec<Moves>)
        requires
            square < 64,
        ensures
            r@ == spec_rook_moves(*board, square, color),
    {
        let mut moves: Vec<Moves> = Vec::new();
        Self::ray_moves_into(&mut moves, board, square, color, 1, 0);
        Self::ray_moves_into(&mut moves, board, square, color, 0, 1);
        Self::ray_moves_into(&mut moves, board, square, color, -1, 0);
        Self::ray_moves_into(&mut moves, board, square, color, 0, -1);
        assert(moves@ =~= spec_rook_moves(*board, square, color));
        moves
    }

    /// All pseudo-legal moves of a bishop of `color` on `square`: the four
    /// diagonal rays in a fixed order.
    pub fn bishop_moves(board: &Board, square: u8, color: Color) -> (r: Vec<Moves>)
        requires
            square < 64,
        ensures
            r@ == spec_bishop_moves(*board, square, color),
    {
        let mut moves: Vec<Moves> = Vec::new();
        Self::ray_moves_into(&mut moves, board, square, color, 1, 1);
        Self::ray_moves_into(&mut moves, board, square, color, 1, -1);
        Self::ray_moves_into(&mut moves, board, square, color, -1, 1);
        Self::ray_moves_into(&mut moves, board, square, color, -1, -1);
        assert(moves@ =~= spec_bishop_moves(*board, square, color));
        moves
    }

    /// All pseudo-legal moves of a queen of `color` on `square`: the rook
    /// rays, then the bishop rays.
    pub fn queen_moves(board: &Board, square: u8, color: Color) -> (r: Vec<Moves>)
        requires
            square < 64,
        ensures
            r@ == spec_queen_moves(*board, square, color),
    {
        let mut moves: Vec<Moves> = Vec::new();
        Self::ray_moves_into(&mut moves, board, square, color, 1, 0);
        Self::ray_moves_into(&mut moves, board, square, color, 0, 1);
        Self::ray_moves_into(&mut moves, board, square, color, -1, 0);
        Self::ray_moves_into(&mut moves, board, square, color, 0, -1);
        Self::ray_moves_into(&mut moves, board, square, color, 1, 1);
        Self::ray_moves_into(&mut moves, board, square, color, 1, -1);
        Self::ray_moves_into(&mut moves, board, square, color, -1, 1);
        Self::ray_moves_into(&mut moves, board, square, color, -1, -1);
        assert(moves@ =~= spec_queen_moves(*board, square, color));
        moves
    }

    /// Whether a piece of the given kind and color stands on `sq`.
    fn has_piece(board: &Board, piece: Piece, color: Color, sq: u8) -> (r: bool)
        requires
            sq < 64,
        ensures
            r == spec_has_piece(*board, piece, color, sq),
    {
        board.get_bb(piece, color) & (1u64 << (sq as u64)) != 0
    }

    /// Whether a pawn of `by` attacks `square`.
    fn pawn_attack(board: &Board, square: u8, by: Color) -> (r: bool)
        requires
            square < 64,
        ensures
            r == spec_pawn_attack(*board, square, by),
    {
        let rank = square / 8;
        let file = square % 8;
        match by {
            Color::White => rank >= 1 && ((file >= 1 && Self::has_piece(
                board,
                Piece::Pawn,
                Color::White,
                square - 9,
            )) || (file <= 6 && Self::has_piece(board, Piece::Pawn, Color::White, square - 7))),
            Color::Black => rank <= 6 && ((file >= 1 && Self::has_piece(
                board,
                Piece::Pawn,
                Color::Black,
                square + 7,
            )) || (file <= 6 && Self::has_piece(board, Piece::Pawn, Color::Black, square + 9))),
        }
    }

    /// Whether a piece of the given kind and color stands at the fixed
    /// offset `(dr, df)` from `square`, on the board.
    fn offset_attack(board: &Board, square: u8, piece: Piece, by: Color, dr: i16, df: i16) -> (r:
        bool)
        requires
            square < 64,
            -2 <= dr <= 2,
            -2 <= df <= 2,
        ensures
            r == spec_offset_attack(*board, square, piece, by, dr as int, df as int),
    {
        let nr: i16 = (square / 8) as i16 + dr;
        let nf: i16 = (square % 8) as i16 + df;
        0 <= nr && nr < 8 && 0 <= nf && nf < 8 && Self::has_piece(
            board,
            piece,
            by,
            (nr * 8 + nf) as u8,
        )
    }

    /// Walk the sliding ray from `(r, f)` in direction `(dr, df)` for at
    /// most `fuel` steps and report whether its first occupied square holds
    /// a matching slider of `by`.
    fn ray_attack(
        board: &Board,
        by: Color,
        r: i16,
        f: i16,
        dr: i16,
        df: i16,
        straight: bool,
        fuel: u8,
    ) -> (res: bool)
        requires
            0 <= r < 8,
            0 <= f < 8,
            -1 <= dr <= 1,
            -1 <= df <= 1,
        ensures
            res == spec_ray_attack_from(
                *board,
                by,
                r as int,
                f as int,
                dr as int,
                df as int,
                straight,
                fuel as nat,
            ),
        decreases fuel,
    {
        if fuel == 0 {
            return false;
        }
        let nr: i16 = r + dr;
        let nf: i16 = f + df;
        if 0 <= nr && nr < 8 && 0 <= nf && nf < 8 {
            match board.get_piece_at((nr * 8 + nf) as u8) {
                Some((p, pc)) => pc == by && (if straight {
                    p == Piece::Rook || p == Piece::Queen
                } else {
                    p == Piece::Bishop || p == Piece::Queen
                }),
                None => Self::ray_attack(board, by, nr, nf, dr, df, straight, fuel - 1),
            }
        } else {
            false
        }
    }

    /// The slider direction at position `d` of the fixed table.
    fn slider_dir(d: usize) -> (r: (i16, i16))
        requires
            d < 8,
        ensures
            (r.0 as int, r.1 as int) == spec_slider_dir(d as int),
            -1 <= r.0 <= 1 && -1 <= r.1 <= 1,
    {
        match d {
            0 => (1, 0),
            1 => (0, 1),
            2 => (-1, 0),
            3 => (0, -1),
            4 => (1, 1),
            5 => (1, -1),
            6 => (-1, 1),
            _ => (-1, -1),
        }
    }

    /// Whether `by_color` attacks `square`: some pawn, knight, king or
    /// sliding piece of that color could reach the square by its own
    /// movement pattern, sliding rays stopping at the first occupied square.
    pub fn is_square_attacked(board: &Board, square: u8, by_color: Color) -> (r: bool)
        requires
            square < 64,
        ensures
            r == spec_attacked(*board, square, by_color),
    {
        let mut attacked = Self::pawn_attack(board, square, by_color);

        let mut j: usize = 0;
        while j < 8
            invariant
                square < 64,
                j <= 8,
                attacked == (spec_pawn_attack(*board, square, by_color) || spec_knight_attack_upto(
                    *board,
                    square,
                    by_color,
                    j as int,
                )),
            decreases 8 - j,
        {
            let (dr, df) = Self::knight_offset(j);
            if Self::offset_attack(board, square, Piece::Knight, by_color, dr, df) {
                attacked = true;
            }
            j = j + 1;
        }

        let mut j: usize = 0;
        while j < 8
            invariant
                square < 64,
                j <= 8,
                attacked == (spec_pawn_attack(*board, square, by_color) || spec_knight_attack_upto(
                    *board,
                    square,
                    by_color,
                    8,
                ) || spec_king_attack_upto(*board, square, by_color, j as int)),
            decreases 8 - j,
        {
            let (dr, df) = Self::king_offset(j);
            if Self::offset_attack(board, square, Piece::King, by_color, dr, df) {
                attacked = true;
            }
            j = j + 1;
        }

        let rank = square / 8;
        let file = square % 8;
        let mut d: usize = 0;
        while d < 8
            invariant
                square < 64,
                rank == spec_rank(square),
                file == spec_file(square),
                d <= 8,
                attacked == (spec_pawn_attack(*board, square, by_color) || spec_knight_attack_upto(
                    *board,
                    square,
                    by_color,
                    8,
                ) || spec_king_attack_upto(*board, square, by_color, 8) || spec_slider_attack_upto(
                    *board,
                    square,
                    by_color,
                    d as int,
                )),
            decreases 8 - d,
        {
            let (dr, df) = Self::slider_dir(d);
            if Self::ray_attack(board, by_color, rank as i16, file as i16, dr, df, d < 4, 7) {
                attacked = true;
            }
            d = d + 1;
        }

        attacked
    }

    /// Append the castle moves of `color`: kingside, then queenside. A
    /// castle is emitted only when the rights flag is set, the squares
    /// between king and rook are empty, and neither the king's square nor
    /// any square it crosses is attacked by the opponent.
    fn castle_moves_into(moves: &mut Vec<Moves>, board: &Board, color: Color)
        ensures
            final(moves)@ == old(moves)@ + spec_castle_moves(*board, color),
    {
        let opp = color.opponent();
        let k: u8 = match color {
            Color::White => 4,
            Color::Black => 60,
        };
        let kingside_flag: u8 = match color {
            Color::White => 0x1,
            Color::Black => 0x4,
        };
        let queenside_flag: u8 = match color {
            Color::White => 0x2,
            Color::Black => 0x8,
        };

        if board.castling_rights & kingside_flag != 0 && board.get_piece_at(k + 1).is_none()
            && board.get_piece_at(k + 2).is_none() && !Self::is_square_attacked(board, k, opp)
            && !Self::is_square_attacked(board, k + 1, opp) && !Self::is_square_attacked(
            board,
            k + 2,
            opp,
        ) {
            moves.push(Moves { from: k, to: k + 2, move_type: MoveType::Castle });
        }
        assert(moves@ =~= old(moves)@ + spec_castle_kingside(*board, color));

        if board.castling_rights & queenside_flag != 0 && board.get_piece_at(k - 1).is_none()
            && board.get_piece_at(k - 2).is_none() && board.get_piece_at(k - 3).is_none()
            && !Self::is_square_attacked(board, k, opp) && !Self::is_square_attacked(
            board,
            k - 1,
            opp,
        ) && !Self::is_square_attacked(board, k - 2, opp) {
            moves.push(Moves { from: k, to: k - 2, move_type: MoveType::Castle });
        }
        assert(moves@ =~= old(moves)@ + spec_castle_kingside(*board, color)
            + spec_castle_queenside(*board, color));
    }

    /// All pseudo-legal moves of a single piece of the given kind and color
    /// on `square`.
    fn piece_moves(board: &Board, square: u8, color: Color, piece: Piece) -> (r: Vec<Moves>)
        requires
            square < 64,
        ensures
            r@ == spec_piece_moves(*board, square, color, piece),
    {
        match piece {
            Piece::Pawn => Self::pawn_moves(board, square, color),
            Piece::Knight => Self::knight_moves(board, square, color),
            Piece::Bishop => Self::bishop_moves(board, square, color),
            Piece::Rook => Self::rook_moves(board, square, color),
            Piece::Queen => Self::queen_moves(board, square, color),
            Piece::King => Self::king_moves(board, square, color),
        }
    }

    /// Append the moves of every piece of one kind belonging to `color`,
    /// walking that kind's squares in ascending order.
    fn piece_kind_moves_into(moves: &mut Vec<Moves>, board: &Board, color: Color, piece: Piece)
        ensures
            final(moves)@ == old(moves)@ + spec_piece_kind_moves(*board, color, piece),
    {
        let squares = board.get_piece_squares(color, piece);
        proof {
            lemma_bb_squares_prefix_props(spec_get_bb(*board, piece, color), 64);
        }
        let n = squares.len();
        let mut i: usize = 0;
        while i < n
            invariant
                n == squares@.len(),
                squares@ == spec_bb_squares(spec_get_bb(*board, piece, color)),
                forall|k: int| 0 <= k < n ==> squares@[k] < 64,
                i <= n,
                moves@ == old(moves)@ + spec_moves_for_squares(
                    *board,
                    color,
                    piece,
                    squares@,
                    i as int,
                ),
            decreases n - i,
        {
            let mut ms = Self::piece_moves(board, squares[i], color, piece);
            moves.append(&mut ms);
            i = i + 1;
        }
    }

    /// All pseudo-legal moves of `color`: pawns, knights, bishops, rooks,
    /// queens, the king, then the castle moves, in that fixed order. A
    /// pseudo-legal move obeys the moved piece's movement rules and the
    /// occupancy, but may leave the mover's own king in check.
    pub fn generate_all_moves(board: &Board, color: Color) -> (r: Vec<Moves>)
        ensures
            r@ == spec_all_moves(*board, color),
    {
        let mut all_moves: Vec<Moves> = Vec::new();
        Self::piece_kind_moves_into(&mut all_moves, board, color, Piece::Pawn);
        Self::piece_kind_moves_into(&mut all_moves, board, color, Piece::Knight);
        Self::piece_kind_moves_into(&mut all_moves, board, color, Piece::Bishop);
        Self::piece_kind_moves_into(&mut all_moves, board, color, Piece::Rook);
        Self::piece_kind_moves_into(&mut all_moves, board, color, Piece::Queen);
        Self::piece_kind_moves_into(&mut all_moves, board, color, Piece::King);
        Self::castle_moves_into(&mut all_moves, board, color);
        assert(all_moves@ =~= spec_all_moves(*board, color));
        all_moves
    }

    /// The square of the king of `color`, when one stands on the board. A
    /// board without that king yields `None`: the malformed case is reported
    /// explicitly, never folded into a wrong answer.
    pub fn king_square(board: &Board, color: Color) -> (r: Option<u8>)
        ensures
            r == spec_king_square(*board, color),
            r matches Some(k) ==> k < 64,
    {
        let squares = board.get_piece_squares(color, Piece::King);
        proof {
            lemma_bb_squares_prefix_props(spec_get_bb(*board, Piece::King, color), 64);
        }
        if squares.len() > 0 {
            Some(squares[0])
        } else {
            None
        }
    }

    /// Whether applying `mv` to a scratch copy of `board` leaves the king
    /// of `color` safe from attack. A move whose squares leave the board is
    /// not legal; a mover with no king cannot be left in check.
    pub fn is_legal_move(board: &Board, mv: &Moves, color: Color) -> (r: bool)
        ensures
            r == spec_is_legal(*board, *mv, color),
    {
        if !(mv.from < 64 && mv.to < 64) {
            return false;
        }
        let mut after = *board;
        after.make_move(mv);
        match Self::king_square(&after, color) {
            None => true,
            Some(k) => !Self::is_square_attacked(&after, k, color.opponent()),
        }
    }

    /// All legal moves of `color`: the pseudo-legal moves whose application
    /// leaves the mover's own king safe, in generation order. Terminal
    /// positions yield an empty list, never a failure.
    pub fn generate_legal_moves(board: &Board, color: Color) -> (r: Vec<Moves>)
        ensures
            r@ == spec_legal_moves(*board, color),
    {
        let all = Self::generate_all_moves(board, color);
        let mut legal: Vec<Moves> = Vec::new();
        let n = all.len();
        let mut i: usize = 0;
        while i < n
            invariant
                n == all@.len(),
                all@ == spec_all_moves(*board, color),
                i <= n,
                legal@ == spec_filter_legal(*board, color, all@, i as int),
            decreases n - i,
        {
            let mv = all[i];
            if Self::is_legal_move(board, &mv, color) {
                legal.push(mv);
            }
            assert(legal@ =~= spec_filter_legal(*board, color, all@, i as int + 1));
            i = i + 1;
        }
        legal
    }

    /// Whether `color` is in check: its king's square is attacked by the
    /// opponent under the current board, with no move applied.
    pub fn is_in_check(board: &Board, color: Color) -> (r: bool)
        requires
            spec_has_king(*board, color),
        ensures
            r == spec_in_check(*board, color),
    {
        match Self::king_square(board, color) {
            None => false,
            Some(k) => Self::is_square_attacked(board, k, color.opponent()),
        }
    }

    /// Whether `color` is checkmated: in check with no legal move.
    pub fn is_checkmate(board: &Board, color: Color) -> (r: bool)
        requires
            spec_has_king(*board, color),
        ensures
            r == spec_checkmate(*board, color),
    {
        Self::is_in_check(board, color) && Self::generate_legal_moves(board, color).len() == 0
    }

    /// Whether `color` is stalemated: not in check, yet without a legal
    /// move.
    pub fn is_stalemate(board: &Board, color: Color) -> (r: bool)
        requires
            spec_has_king(*board, color),
        ensures
            r == spec_stalemate(*board, color),
    {
        !Self::is_in_check(board, color) && Self::generate_legal_moves(board, color).len() == 0
    }
}

} // verus!
