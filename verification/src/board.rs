//! Bitboard-backed board state: twelve square-sets, one per piece kind and
//! color, with side to move, castling rights, en-passant target and the two
//! move counters.
//!
//! Squares are numbered 0 to 63 as `rank * 8 + file`, file a = 0 to h = 7,
//! rank 1 = 0 to 8 = 7. A bitboard holds one membership bit per square.

use vstd::prelude::*;

use crate::moves::{MoveType, Moves};
use crate::piece::{Color, Piece};
use crate::util::{spec_file, spec_rank};

verus! {

/// Whether square `sq` is a member of the bitboard `bb`.
pub open spec fn bb_has(bb: u64, sq: u8) -> bool {
    bb & (1u64 << (sq as u64)) != 0
}

/// Setting a bit makes exactly that square a member and keeps the others.
pub proof fn lemma_bb_set(bb: u64, s: u8, i: u8)
    by (bit_vector)
    requires
        s < 64,
        i < 64,
    ensures
        bb_has(bb | (1u64 << (s as u64)), i) <==> (i == s || bb_has(bb, i)),
{
}

/// Clearing a bit removes exactly that square and keeps the others.
pub proof fn lemma_bb_clear(bb: u64, s: u8, i: u8)
    by (bit_vector)
    requires
        s < 64,
        i < 64,
    ensures
        bb_has(bb & !(1u64 << (s as u64)), i) <==> (i != s && bb_has(bb, i)),
{
}

/// The empty bitboard has no members, and a union has the members of both sides.
pub proof fn lemma_bb_zero_or(a: u64, b: u64, i: u8)
    by (bit_vector)
    requires
        i < 64,
    ensures
        !bb_has(0u64, i),
        bb_has(a | b, i) <==> (bb_has(a, i) || bb_has(b, i)),
{
}

/// Bitboard-based board state. `to_move` is true when White is to move;
/// `castling_rights` holds four flags (see [`Board::CASTLE_WK`] and its
/// siblings); `en_passant` is the square a pawn just skipped, if any.
#[derive(Debug, Clone, Copy)]
pub struct Board {
    pub white_pawns: u64,
    pub white_knights: u64,
    pub white_bishops: u64,
    pub white_rooks: u64,
    pub white_queens: u64,
    pub white_king: u64,

    pub black_pawns: u64,
    pub black_knights: u64,
    pub black_bishops: u64,
    pub black_rooks: u64,
    pub black_queens: u64,
    pub black_king: u64,

    pub to_move: bool,
    pub halfmove_clock: u16,
    pub fullmove_number: u16,
    pub en_passant: Option<u8>,
    pub castling_rights: u8,
}

/// The bitboard of `board` that holds pieces of the given kind and color.
pub open spec fn spec_get_bb(board: Board, piece: Piece, color: Color) -> u64 {
    match (piece, color) {
        (Piece::Pawn, Color::White) => board.white_pawns,
        (Piece::Knight, Color::White) => board.white_knights,
        (Piece::Bishop, Color::White) => board.white_bishops,
        (Piece::Rook, Color::White) => board.white_rooks,
        (Piece::Queen, Color::White) => board.white_queens,
        (Piece::King, Color::White) => board.white_king,
        (Piece::Pawn, Color::Black) => board.black_pawns,
        (Piece::Knight, Color::Black) => board.black_knights,
        (Piece::Bishop, Color::Black) => board.black_bishops,
        (Piece::Rook, Color::Black) => board.black_rooks,
        (Piece::Queen, Color::Black) => board.black_queens,
        (Piece::King, Color::Black) => board.black_king,
    }
}

/// `board` with the bitboard for the given kind and color replaced by `bb`.
pub open spec fn spec_with_bb(board: Board, piece: Piece, color: Color, bb: u64) -> Board {
    match (piece, color) {
        (Piece::Pawn, Color::White) => Board { white_pawns: bb, ..board },
        (Piece::Knight, Color::White) => Board { white_knights: bb, ..board },
        (Piece::Bishop, Color::White) => Board { white_bishops: bb, ..board },
        (Piece::Rook, Color::White) => Board { white_rooks: bb, ..board },
        (Piece::Queen, Color::White) => Board { white_queens: bb, ..board },
        (Piece::King, Color::White) => Board { white_king: bb, ..board },
        (Piece::Pawn, Color::Black) => Board { black_pawns: bb, ..board },
        (Piece::Knight, Color::Black) => Board { black_knights: bb, ..board },
        (Piece::Bishop, Color::Black) => Board { black_bishops: bb, ..board },
        (Piece::Rook, Color::Black) => Board { black_rooks: bb, ..board },
        (Piece::Queen, Color::Black) => Board { black_queens: bb, ..board },
        (Piece::King, Color::Black) => Board { black_king: bb, ..board },
    }
}

/// Whether a piece of the given kind and color stands on `sq`.
pub open spec fn spec_has_piece(board: Board, piece: Piece, color: Color, sq: u8) -> bool {
    bb_has(spec_get_bb(board, piece, color), sq)
}

/// `board` with a piece of the given kind and color added on `sq`.
pub open spec fn spec_set_piece(board: Board, piece: Piece, color: Color, sq: u8) -> Board {
    spec_with_bb(board, piece, color, spec_get_bb(board, piece, color) | (1u64 << (sq as u64)))
}

/// `board` with any piece of the given kind and color removed from `sq`.
pub open spec fn spec_remove_piece(board: Board, piece: Piece, color: Color, sq: u8) -> Board {
    spec_with_bb(board, piece, color, spec_get_bb(board, piece, color) & !(1u64 << (sq as u64)))
}

/// The occupant of `sq`, reading the twelve bitboards in a fixed order:
/// White pawns through king first, then Black.
pub open spec fn spec_piece_at(board: Board, sq: u8) -> Option<(Piece, Color)> {
    if bb_has(board.white_pawns, sq) {
        Some((Piece::Pawn, Color::White))
    } else if bb_has(board.white_knights, sq) {
        Some((Piece::Knight, Color::White))
    } else if bb_has(board.white_bishops, sq) {
        Some((Piece::Bishop, Color::White))
    } else if bb_has(board.white_rooks, sq) {
        Some((Piece::Rook, Color::White))
    } else if bb_has(board.white_queens, sq) {
        Some((Piece::Queen, Color::White))
    } else if bb_has(board.white_king, sq) {
        Some((Piece::King, Color::White))
    } else if bb_has(board.black_pawns, sq) {
        Some((Piece::Pawn, Color::Black))
    } else if bb_has(board.black_knights, sq) {
        Some((Piece::Knight, Color::Black))
    } else if bb_has(board.black_bishops, sq) {
        Some((Piece::Bishop, Color::Black))
    } else if bb_has(board.black_rooks, sq) {
        Some((Piece::Rook, Color::Black))
    } else if bb_has(board.black_queens, sq) {
        Some((Piece::Queen, Color::Black))
    } else if bb_has(board.black_king, sq) {
        Some((Piece::King, Color::Black))
    } else {
        None
    }
}

/// The union of the six bitboards of `color`.
pub open spec fn spec_all_pieces(board: Board, color: Color) -> u64 {
    match color {
        Color::White => board.white_pawns | board.white_knights | board.white_bishops
            | board.white_rooks | board.white_queens | board.white_king,
        Color::Black => board.black_pawns | board.black_knights | board.black_bishops
            | board.black_rooks | board.black_queens | board.black_king,
    }
}

/// Disjointness: every square holds at most one piece. Whenever two of the
/// twelve square-sets claim the same square, they are the same set.
pub open spec fn spec_wf(board: Board) -> bool {
    forall|p1: Piece, c1: Color, p2: Piece, c2: Color, sq: u8|
        sq < 64 && #[trigger] spec_has_piece(board, p1, c1, sq) && #[trigger] spec_has_piece(
            board,
            p2,
            c2,
            sq,
        ) ==> p1 == p2 && c1 == c2
}

/// On a well-formed board, `spec_piece_at` finds exactly the piece that the
/// square-sets hold: it returns `Some((p, c))` if and only if the square is a
/// member of that one set.
pub proof fn lemma_piece_at_wf(board: Board, sq: u8)
    requires
        spec_wf(board),
        sq < 64,
    ensures
        forall|p: Piece, c: Color|
            #[trigger] spec_has_piece(board, p, c, sq) <==> spec_piece_at(board, sq) == Some(
                (p, c),
            ),
{
    assert(spec_has_piece(board, Piece::Pawn, Color::White, sq) == bb_has(board.white_pawns, sq));
    assert(spec_has_piece(board, Piece::Knight, Color::White, sq) == bb_has(
        board.white_knights,
        sq,
    ));
    assert(spec_has_piece(board, Piece::Bishop, Color::White, sq) == bb_has(
        board.white_bishops,
        sq,
    ));
    assert(spec_has_piece(board, Piece::Rook, Color::White, sq) == bb_has(board.white_rooks, sq));
    assert(spec_has_piece(board, Piece::Queen, Color::White, sq) == bb_has(board.white_queens, sq));
    assert(spec_has_piece(board, Piece::King, Color::White, sq) == bb_has(board.white_king, sq));
    assert(spec_has_piece(board, Piece::Pawn, Color::Black, sq) == bb_has(board.black_pawns, sq));
    assert(spec_has_piece(board, Piece::Knight, Color::Black, sq) == bb_has(
        board.black_knights,
        sq,
    ));
    assert(spec_has_piece(board, Piece::Bishop, Color::Black, sq) == bb_has(
        board.black_bishops,
        sq,
    ));
    assert(spec_has_piece(board, Piece::Rook, Color::Black, sq) == bb_has(board.black_rooks, sq));
    assert(spec_has_piece(board, Piece::Queen, Color::Black, sq) == bb_has(board.black_queens, sq));
    assert(spec_has_piece(board, Piece::King, Color::Black, sq) == bb_has(board.black_king, sq));
}

/// The squares of `bb` below `n`, in ascending order.
pub open spec fn spec_bb_squares_prefix(bb: u64, n: int) -> Seq<u8>
    decreases n,
{
    if n <= 0 {
        Seq::empty()
    } else {
        spec_bb_squares_prefix(bb, n - 1) + if bb_has(bb, (n - 1) as u8) {
            seq![(n - 1) as u8]
        } else {
            Seq::empty()
        }
    }
}

/// All squares of `bb`, in ascending order.
pub open spec fn spec_bb_squares(bb: u64) -> Seq<u8> {
    spec_bb_squares_prefix(bb, 64)
}

/// A square listed for `bb` is on the board, is a member of `bb`, and the list
/// never repeats or outgrows the range it scans.
pub proof fn lemma_bb_squares_prefix_props(bb: u64, n: int)
    requires
        0 <= n <= 64,
    ensures
        spec_bb_squares_prefix(bb, n).len() <= n,
        forall|k: int|
            0 <= k < spec_bb_squares_prefix(bb, n).len() ==> #[trigger] spec_bb_squares_prefix(
                bb,
                n,
            )[k] < n && bb_has(bb, spec_bb_squares_prefix(bb, n)[k]),
    decreases n,
{
    if n > 0 {
        lemma_bb_squares_prefix_props(bb, n - 1);
    }
}

/// The square of the pawn an en-passant capture removes: the rank of the
/// capturing pawn's origin, at the file of its destination — beside the
/// origin, not the destination itself.
pub open spec fn spec_ep_square(mv: Moves) -> u8 {
    (spec_rank(mv.from) * 8 + spec_file(mv.to)) as u8
}

/// Whether a move kind takes an opposing piece.
pub open spec fn spec_is_capture_kind(mt: MoveType) -> bool {
    mt is Capture || mt is EnPassant || mt is PromotionCapture
}

/// The castling-rights flags that touching `sq` clears: each corner square
/// carries the flag of the rook that starts there.
pub open spec fn spec_clear_rights_mask(sq: u8) -> u8 {
    if sq == 0 {
        Board::castle_wq()
    } else if sq == 7 {
        Board::castle_wk()
    } else if sq == 56 {
        Board::castle_bq()
    } else if sq == 63 {
        Board::castle_bk()
    } else {
        0
    }
}

/// The castling rights after a move: moving the king clears both of its
/// color's flags, and touching a rook's corner square — moving from it or
/// capturing onto it — clears that corner's flag, for either color,
/// permanently.
pub open spec fn spec_new_rights(rights: u8, piece: Piece, color: Color, mv: Moves) -> u8 {
    let king_mask: u8 = if piece is King {
        match color {
            Color::White => 0x3,
            Color::Black => 0xc,
        }
    } else {
        0
    };
    ((rights & !king_mask) & !spec_clear_rights_mask(mv.from)) & !spec_clear_rights_mask(mv.to)
}

/// Adding a piece adds exactly one membership and keeps every other.
pub proof fn lemma_set_piece_has(
    b: Board,
    p: Piece,
    c: Color,
    s: u8,
    p2: Piece,
    c2: Color,
    x: u8,
)
    requires
        s < 64,
        x < 64,
    ensures
        spec_has_piece(spec_set_piece(b, p, c, s), p2, c2, x) == (spec_has_piece(b, p2, c2, x) || (
        p == p2 && c == c2 && s == x)),
{
    if p == p2 && c == c2 {
        lemma_bb_set(spec_get_bb(b, p, c), s, x);
    }
}

/// Removing a piece removes exactly one membership and keeps every other.
pub proof fn lemma_remove_piece_has(
    b: Board,
    p: Piece,
    c: Color,
    s: u8,
    p2: Piece,
    c2: Color,
    x: u8,
)
    requires
        s < 64,
        x < 64,
    ensures
        spec_has_piece(spec_remove_piece(b, p, c, s), p2, c2, x) == (spec_has_piece(b, p2, c2, x)
            && !(p == p2 && c == c2 && s == x)),
{
    if p == p2 && c == c2 {
        lemma_bb_clear(spec_get_bb(b, p, c), s, x);
    }
}

/// An empty square in the sense of [`spec_piece_at`] is a member of none of
/// the twelve square-sets.
pub proof fn lemma_piece_at_none(b: Board, x: u8)
    requires
        spec_piece_at(b, x) is None,
    ensures
        forall|p: Piece, c: Color| !spec_has_piece(b, p, c, x),
{
    assert forall|p: Piece, c: Color| !spec_has_piece(b, p, c, x) by {
        assert(!bb_has(spec_get_bb(b, p, c), x));
    }
}

/// A square whose only membership over the twelve square-sets is one piece
/// holds exactly that piece.
pub proof fn lemma_unique_membership_piece_at(b: Board, x: u8, p: Piece, c: Color)
    requires
        spec_has_piece(b, p, c, x),
        forall|p2: Piece, c2: Color| #[trigger] spec_has_piece(b, p2, c2, x) ==> p2 == p && c2 == c,
    ensures
        spec_piece_at(b, x) == Some((p, c)),
{
    assert(spec_has_piece(b, Piece::Pawn, Color::White, x) == bb_has(b.white_pawns, x));
    assert(spec_has_piece(b, Piece::Knight, Color::White, x) == bb_has(b.white_knights, x));
    assert(spec_has_piece(b, Piece::Bishop, Color::White, x) == bb_has(b.white_bishops, x));
    assert(spec_has_piece(b, Piece::Rook, Color::White, x) == bb_has(b.white_rooks, x));
    assert(spec_has_piece(b, Piece::Queen, Color::White, x) == bb_has(b.white_queens, x));
    assert(spec_has_piece(b, Piece::King, Color::White, x) == bb_has(b.white_king, x));
    assert(spec_has_piece(b, Piece::Pawn, Color::Black, x) == bb_has(b.black_pawns, x));
    assert(spec_has_piece(b, Piece::Knight, Color::Black, x) == bb_has(b.black_knights, x));
    assert(spec_has_piece(b, Piece::Bishop, Color::Black, x) == bb_has(b.black_bishops, x));
    assert(spec_has_piece(b, Piece::Rook, Color::Black, x) == bb_has(b.black_rooks, x));
    assert(spec_has_piece(b, Piece::Queen, Color::Black, x) == bb_has(b.black_queens, x));
    assert(spec_has_piece(b, Piece::King, Color::Black, x) == bb_has(b.black_king, x));
}

/// A square that is a member of none of the twelve square-sets is empty in
/// the sense of [`spec_piece_at`].
pub proof fn lemma_no_membership_empty(b: Board, x: u8)
    requires
        forall|p: Piece, c: Color| !spec_has_piece(b, p, c, x),
    ensures
        spec_piece_at(b, x) is None,
{
    assert(!spec_has_piece(b, Piece::Pawn, Color::White, x));
    assert(!spec_has_piece(b, Piece::Knight, Color::White, x));
    assert(!spec_has_piece(b, Piece::Bishop, Color::White, x));
    assert(!spec_has_piece(b, Piece::Rook, Color::White, x));
    assert(!spec_has_piece(b, Piece::Queen, Color::White, x));
    assert(!spec_has_piece(b, Piece::King, Color::White, x));
    assert(!spec_has_piece(b, Piece::Pawn, Color::Black, x));
    assert(!spec_has_piece(b, Piece::Knight, Color::Black, x));
    assert(!spec_has_piece(b, Piece::Bishop, Color::Black, x));
    assert(!spec_has_piece(b, Piece::Rook, Color::Black, x));
    assert(!spec_has_piece(b, Piece::Queen, Color::Black, x));
    assert(!spec_has_piece(b, Piece::King, Color::Black, x));
}

/// Adding a piece on an empty square keeps the twelve square-sets disjoint.
pub proof fn lemma_set_piece_empty_wf(b: Board, p: Piece, c: Color, s: u8)
    requires
        spec_wf(b),
        s < 64,
        spec_piece_at(b, s) is None,
    ensures
        spec_wf(spec_set_piece(b, p, c, s)),
{
    let nb = spec_set_piece(b, p, c, s);
    lemma_piece_at_none(b, s);
    assert forall|p1: Piece, c1: Color, p2: Piece, c2: Color, sq: u8|
        sq < 64 && #[trigger] spec_has_piece(nb, p1, c1, sq) && #[trigger] spec_has_piece(
            nb,
            p2,
            c2,
            sq,
        ) implies p1 == p2 && c1 == c2 by {
        lemma_set_piece_has(b, p, c, s, p1, c1, sq);
        lemma_set_piece_has(b, p, c, s, p2, c2, sq);
        if sq == s {
            assert(!spec_has_piece(b, p1, c1, s));
            assert(!spec_has_piece(b, p2, c2, s));
        }
    }
}

/// Two boards with the same twelve square-sets are equally well-formed:
/// the scalar fields play no part in disjointness.
pub proof fn lemma_wf_same_boards(b1: Board, b2: Board)
    requires
        spec_wf(b1),
        b2.white_pawns == b1.white_pawns,
        b2.white_knights == b1.white_knights,
        b2.white_bishops == b1.white_bishops,
        b2.white_rooks == b1.white_rooks,
        b2.white_queens == b1.white_queens,
        b2.white_king == b1.white_king,
        b2.black_pawns == b1.black_pawns,
        b2.black_knights == b1.black_knights,
        b2.black_bishops == b1.black_bishops,
        b2.black_rooks == b1.black_rooks,
        b2.black_queens == b1.black_queens,
        b2.black_king == b1.black_king,
    ensures
        spec_wf(b2),
{
    assert forall|p1: Piece, c1: Color, p2: Piece, c2: Color, sq: u8|
        sq < 64 && #[trigger] spec_has_piece(b2, p1, c1, sq) && #[trigger] spec_has_piece(
            b2,
            p2,
            c2,
            sq,
        ) implies p1 == p2 && c1 == c2 by {
        assert(spec_get_bb(b2, p1, c1) == spec_get_bb(b1, p1, c1));
        assert(spec_get_bb(b2, p2, c2) == spec_get_bb(b1, p2, c2));
        assert(spec_has_piece(b1, p1, c1, sq));
        assert(spec_has_piece(b1, p2, c2, sq));
    }
}

/// The board after applying `mv`, atomically: the en-passant target is
/// cleared, then re-set only for a double pawn push; the mover leaves
/// `mv.from`; an en-passant capture removes the opposing pawn beside the
/// origin and an ordinary capture removes the occupant of `mv.to`; the mover
/// — or, for a promotion, the chosen piece — lands on `mv.to`; a castle also
/// relocates the matching rook; castling rights, the clocks and the side to
/// move are updated last. A move whose origin square is empty leaves the
/// board unchanged.
pub open spec fn spec_make_move(board: Board, mv: Moves) -> Board {
    match spec_piece_at(board, mv.from) {
        None => board,
        Some((piece, color)) => {
            let placed = match mv.move_type {
                MoveType::Promotion { piece: pp } => pp,
                MoveType::PromotionCapture { piece: pp } => pp,
                _ => piece,
            };
            let b0 = Board {
                en_passant: if mv.move_type is Double {
                    Some(((mv.from + mv.to) / 2) as u8)
                } else {
                    None
                },
                ..board
            };
            let b1 = spec_remove_piece(b0, piece, color, mv.from);
            let b2 = if mv.move_type is EnPassant {
                spec_remove_piece(b1, Piece::Pawn, color.spec_opponent(), spec_ep_square(mv))
            } else if mv.move_type is Capture || mv.move_type is PromotionCapture {
                match spec_piece_at(board, mv.to) {
                    Some((cp, cc)) => spec_remove_piece(b1, cp, cc, mv.to),
                    None => b1,
                }
            } else {
                b1
            };
            let b3 = spec_set_piece(b2, placed, color, mv.to);
            let b4 = if mv.move_type is Castle {
                if mv.to == mv.from + 2 && mv.to + 1 < 64 {
                    spec_set_piece(
                        spec_remove_piece(b3, Piece::Rook, color, (mv.to + 1) as u8),
                        Piece::Rook,
                        color,
                        (mv.to - 1) as u8,
                    )
                } else if mv.from == mv.to + 2 && mv.to >= 2 {
                    spec_set_piece(
                        spec_remove_piece(b3, Piece::Rook, color, (mv.to - 2) as u8),
                        Piece::Rook,
                        color,
                        (mv.to + 1) as u8,
                    )
                } else {
                    b3
                }
            } else {
                b3
            };
            Board {
                castling_rights: spec_new_rights(board.castling_rights, piece, color, mv),
                halfmove_clock: if piece is Pawn || spec_is_capture_kind(mv.move_type) {
                    0
                } else if board.halfmove_clock < 0xffff {
                    (board.halfmove_clock + 1) as u16
                } else {
                    board.halfmove_clock
                },
                fullmove_number: if color is Black && board.fullmove_number < 0xffff {
                    (board.fullmove_number + 1) as u16
                } else {
                    board.fullmove_number
                },
                to_move: !board.to_move,
                ..b4
            }
        },
    }
}

/// Whether the board's en-passant target, if set, names an empty board
/// square. Every position arising in play satisfies this: the target is the
/// square a pawn just skipped.
pub open spec fn spec_ep_ok(board: Board) -> bool {
    match board.en_passant {
        Some(e) => e < 64 && spec_piece_at(board, e) is None,
        None => true,
    }
}

/// Whether applying `mv` can only place pieces on squares that are free by
/// then: the placement-safety conditions under which [`spec_make_move`]
/// keeps the twelve square-sets disjoint. Every generated pseudo-legal move
/// satisfies them.
pub open spec fn spec_move_safe(board: Board, mv: Moves) -> bool {
    mv.from < 64 && mv.to < 64 && match spec_piece_at(board, mv.from) {
        None => true,
        Some((piece, color)) => match mv.move_type {
            MoveType::Normal | MoveType::Promotion { .. } => spec_piece_at(board, mv.to) is None,
            MoveType::Double => spec_piece_at(board, mv.to) is None && spec_piece_at(
                board,
                ((mv.from + mv.to) / 2) as u8,
            ) is None && ((mv.from + mv.to) / 2) != mv.to,
            MoveType::Capture | MoveType::PromotionCapture { .. } => true,
            MoveType::EnPassant => spec_piece_at(board, mv.to) is None,
            MoveType::Castle => spec_piece_at(board, mv.to) is None && if mv.to == mv.from + 2
                && mv.to + 1 < 64 {
                spec_piece_at(board, (mv.to - 1) as u8) is None
            } else if mv.from == mv.to + 2 && mv.to >= 2 {
                spec_piece_at(board, (mv.to + 1) as u8) is None
            } else {
                true
            },
        },
    }
}

/// Disjointness is preserved: applying a placement-safe move to a
/// well-formed board with a sound en-passant target yields a board with the
/// same two properties. Every reachable position therefore keeps its twelve
/// square-sets pairwise disjoint.
/// Two pieces standing on one square after a safe move are the same piece.
#[verifier::rlimit(60)]
pub proof fn lemma_move_no_collision(
    board: Board,
    mv: Moves,
    p1: Piece,
    c1: Color,
    p2: Piece,
    c2: Color,
    sq: u8,
)
    requires
        spec_wf(board),
        spec_ep_ok(board),
        spec_move_safe(board, mv),
        spec_piece_at(board, mv.from) is Some,
        sq < 64,
        spec_has_piece(spec_make_move(board, mv), p1, c1, sq),
        spec_has_piece(spec_make_move(board, mv), p2, c2, sq),
    ensures
        p1 == p2 && c1 == c2,
{
    lemma_move_membership(board, mv, p1, c1, sq);
    lemma_move_membership(board, mv, p2, c2, sq);
    lemma_piece_at_wf(board, sq);
}

/// No piece stands on the square a double pawn push skipped.
#[verifier::rlimit(60)]
pub proof fn lemma_move_keeps_mid_empty(board: Board, mv: Moves, p1: Piece, c1: Color)
    requires
        spec_wf(board),
        spec_ep_ok(board),
        spec_move_safe(board, mv),
        spec_piece_at(board, mv.from) is Some,
        mv.move_type is Double,
    ensures
        !spec_has_piece(spec_make_move(board, mv), p1, c1, ((mv.from + mv.to) / 2) as u8),
{
    let mid = ((mv.from + mv.to) / 2) as u8;
    lemma_move_membership(board, mv, p1, c1, mid);
    lemma_piece_at_wf(board, mid);
}

#[verifier::spinoff_prover]
#[verifier::rlimit(100)]
pub proof fn lemma_make_move_preserves_wf(board: Board, mv: Moves)
    requires
        spec_wf(board),
        spec_ep_ok(board),
        spec_move_safe(board, mv),
    ensures
        spec_wf(spec_make_move(board, mv)),
        spec_ep_ok(spec_make_move(board, mv)),
{
    let after = spec_make_move(board, mv);
    match spec_piece_at(board, mv.from) {
        None => {},
        Some((piece, color)) => {
            lemma_piece_at_wf(board, mv.from);
            assert(spec_has_piece(board, piece, color, mv.from));
            assert forall|p1: Piece, c1: Color, p2: Piece, c2: Color, sq: u8|
                sq < 64 && #[trigger] spec_has_piece(after, p1, c1, sq)
                    && #[trigger] spec_has_piece(after, p2, c2, sq) implies p1 == p2 && c1
                == c2 by {
                lemma_move_no_collision(board, mv, p1, c1, p2, c2, sq);
            }
            if mv.move_type is Double {
                let mid = ((mv.from + mv.to) / 2) as u8;
                assert forall|p1: Piece, c1: Color| !spec_has_piece(after, p1, c1, mid) by {
                    lemma_move_keeps_mid_empty(board, mv, p1, c1);
                }
                lemma_no_membership_empty(after, mid);
            }
        },
    }
}

/// Exactly which pieces stand where after a move: a piece of the old board
/// that the move neither picked up, captured, nor — for a castle — moved as
/// the rook; or the mover (or its promotion, or the castle's rook) on the
/// square the move put it.
pub open spec fn spec_after_membership(board: Board, mv: Moves, p: Piece, c: Color, sq: u8) -> bool {
    let (piece, color) = spec_piece_at(board, mv.from)->Some_0;
    let placed = match mv.move_type {
        MoveType::Promotion { piece: pp } => pp,
        MoveType::PromotionCapture { piece: pp } => pp,
        _ => piece,
    };
    let ks = mv.move_type is Castle && mv.to == mv.from + 2 && mv.to + 1 < 64;
    let qs = mv.move_type is Castle && mv.from == mv.to + 2 && mv.to >= 2;
    ||| (spec_has_piece(board, p, c, sq) && !(p == piece && c == color && sq == mv.from) && !(
    mv.move_type is EnPassant && p == Piece::Pawn && c == color.spec_opponent() && sq
        == spec_ep_square(mv)) && !((mv.move_type is Capture || mv.move_type is PromotionCapture)
        && spec_piece_at(board, mv.to) == Some((p, c)) && sq == mv.to) && !(ks && p == Piece::Rook
        && c == color && sq == mv.to + 1) && !(qs && p == Piece::Rook && c == color && sq == mv.to
        - 2))
    ||| (sq == mv.to && p == placed && c == color)
    ||| (ks && p == Piece::Rook && c == color && sq == mv.to - 1)
    ||| (qs && p == Piece::Rook && c == color && sq == mv.to + 1)
}

/// After a move whose origin is occupied, membership on the board is exactly
/// what [`spec_after_membership`] states.
pub proof fn lemma_move_membership(board: Board, mv: Moves, p: Piece, c: Color, sq: u8)
    requires
        spec_move_safe(board, mv),
        sq < 64,
        spec_piece_at(board, mv.from) is Some,
    ensures
        spec_has_piece(spec_make_move(board, mv), p, c, sq) == spec_after_membership(
            board,
            mv,
            p,
            c,
            sq,
        ),
{
    let (piece, color) = spec_piece_at(board, mv.from)->Some_0;
    let placed = match mv.move_type {
        MoveType::Promotion { piece: pp } => pp,
        MoveType::PromotionCapture { piece: pp } => pp,
        _ => piece,
    };
    let b0 = Board {
        en_passant: if mv.move_type is Double {
            Some(((mv.from + mv.to) / 2) as u8)
        } else {
            None
        },
        ..board
    };
    assert(spec_get_bb(b0, p, c) == spec_get_bb(board, p, c));
    let b1 = spec_remove_piece(b0, piece, color, mv.from);
    lemma_remove_piece_has(b0, piece, color, mv.from, p, c, sq);
    let b2 = if mv.move_type is EnPassant {
        spec_remove_piece(b1, Piece::Pawn, color.spec_opponent(), spec_ep_square(mv))
    } else if mv.move_type is Capture || mv.move_type is PromotionCapture {
        match spec_piece_at(board, mv.to) {
            Some((cp, cc)) => spec_remove_piece(b1, cp, cc, mv.to),
            None => b1,
        }
    } else {
        b1
    };
    if mv.move_type is EnPassant {
        lemma_remove_piece_has(b1, Piece::Pawn, color.spec_opponent(), spec_ep_square(mv), p, c, sq);
    } else if mv.move_type is Capture || mv.move_type is PromotionCapture {
        match spec_piece_at(board, mv.to) {
            Some((cp, cc)) => {
                lemma_remove_piece_has(b1, cp, cc, mv.to, p, c, sq);
            },
            None => {},
        }
    }
    let b3 = spec_set_piece(b2, placed, color, mv.to);
    lemma_set_piece_has(b2, placed, color, mv.to, p, c, sq);
    let b4 = if mv.move_type is Castle {
        if mv.to == mv.from + 2 && mv.to + 1 < 64 {
            let rb = spec_remove_piece(b3, Piece::Rook, color, (mv.to + 1) as u8);
            lemma_remove_piece_has(b3, Piece::Rook, color, (mv.to + 1) as u8, p, c, sq);
            lemma_set_piece_has(rb, Piece::Rook, color, (mv.to - 1) as u8, p, c, sq);
            spec_set_piece(rb, Piece::Rook, color, (mv.to - 1) as u8)
        } else if mv.from == mv.to + 2 && mv.to >= 2 {
            let rb = spec_remove_piece(b3, Piece::Rook, color, (mv.to - 2) as u8);
            lemma_remove_piece_has(b3, Piece::Rook, color, (mv.to - 2) as u8, p, c, sq);
            lemma_set_piece_has(rb, Piece::Rook, color, (mv.to + 1) as u8, p, c, sq);
            spec_set_piece(rb, Piece::Rook, color, (mv.to + 1) as u8)
        } else {
            b3
        }
    } else {
        b3
    };
    assert(spec_get_bb(spec_make_move(board, mv), p, c) == spec_get_bb(b4, p, c));
}

impl Board {
    /// White may still castle kingside.
    pub open spec fn castle_wk() -> u8 {
        0x1
    }

    /// White may still castle queenside.
    pub open spec fn castle_wq() -> u8 {
        0x2
    }

    /// Black may still castle kingside.
    pub open spec fn castle_bk() -> u8 {
        0x4
    }

    /// Black may still castle queenside.
    pub open spec fn castle_bq() -> u8 {
        0x8
    }

    /// An empty board: no pieces, White to move, all castling rights set,
    /// no en-passant target, clocks at their start values.
    pub fn new() -> (r: Self)
        ensures
            r.white_pawns == 0 && r.white_knights == 0 && r.white_bishops == 0 && r.white_rooks
                == 0 && r.white_queens == 0 && r.white_king == 0,
            r.black_pawns == 0 && r.black_knights == 0 && r.black_bishops == 0 && r.black_rooks
                == 0 && r.black_queens == 0 && r.black_king == 0,
            r.to_move == true,
            r.halfmove_clock == 0,
            r.fullmove_number == 1,
            r.en_passant is None,
            r.castling_rights == 0xfu8,
            spec_wf(r),
    {
        let r = Self {
            white_pawns: 0,
            white_knights: 0,
            white_bishops: 0,
            white_rooks: 0,
            white_queens: 0,
            white_king: 0,

            black_pawns: 0,
            black_knights: 0,
            black_bishops: 0,
            black_rooks: 0,
            black_queens: 0,
            black_king: 0,

            to_move: true,
            halfmove_clock: 0,
            fullmove_number: 1,
            en_passant: None,
            castling_rights: 0xf,
        };
        proof {
            assert forall|p1: Piece, c1: Color, p2: Piece, c2: Color, sq: u8|
                sq < 64 && #[trigger] spec_has_piece(r, p1, c1, sq) && #[trigger] spec_has_piece(
                    r,
                    p2,
                    c2,
                    sq,
                ) implies p1 == p2 && c1 == c2 by {
                lemma_bb_zero_or(0, 0, sq);
            }
        }
        r
    }

    /// The bitboard for the given piece kind and color.
    pub fn get_bb(&self, piece: Piece, color: Color) -> (r: u64)
        ensures
            r == spec_get_bb(*self, piece, color),
    {
        match (piece, color) {
            (Piece::Pawn, Color::White) => self.white_pawns,
            (Piece::Knight, Color::White) => self.white_knights,
            (Piece::Bishop, Color::White) => self.white_bishops,
            (Piece::Rook, Color::White) => self.white_rooks,
            (Piece::Queen, Color::White) => self.white_queens,
            (Piece::King, Color::White) => self.white_king,
            (Piece::Pawn, Color::Black) => self.black_pawns,
            (Piece::Knight, Color::Black) => self.black_knights,
            (Piece::Bishop, Color::Black) => self.black_bishops,
            (Piece::Rook, Color::Black) => self.black_rooks,
            (Piece::Queen, Color::Black) => self.black_queens,
            (Piece::King, Color::Black) => self.black_king,
        }
    }

    /// Add a piece of the given kind and color on `square`.
    pub fn set_piece(&mut self, piece: Piece, color: Color, square: u8)
        requires
            square < 64,
        ensures
            *final(self) == spec_set_piece(*old(self), piece, color, square),
    {
        let bb = self.get_bb(piece, color) | (1u64 << (square as u64));
        match (piece, color) {
            (Piece::Pawn, Color::White) => self.white_pawns = bb,
            (Piece::Knight, Color::White) => self.white_knights = bb,
            (Piece::Bishop, Color::White) => self.white_bishops = bb,
            (Piece::Rook, Color::White) => self.white_rooks = bb,
            (Piece::Queen, Color::White) => self.white_queens = bb,
            (Piece::King, Color::White) => self.white_king = bb,
            (Piece::Pawn, Color::Black) => self.black_pawns = bb,
            (Piece::Knight, Color::Black) => self.black_knights = bb,
            (Piece::Bishop, Color::Black) => self.black_bishops = bb,
            (Piece::Rook, Color::Black) => self.black_rooks = bb,
            (Piece::Queen, Color::Black) => self.black_queens = bb,
            (Piece::King, Color::Black) => self.black_king = bb,
        }
    }

    /// Remove any piece of the given kind and color from `square`.
    pub fn remove_piece(&mut self, piece: Piece, color: Color, square: u8)
        requires
            square < 64,
        ensures
            *final(self) == spec_remove_piece(*old(self), piece, color, square),
    {
        let bb = self.get_bb(piece, color) & !(1u64 << (square as u64));
        match (piece, color) {
            (Piece::Pawn, Color::White) => self.white_pawns = bb,
            (Piece::Knight, Color::White) => self.white_knights = bb,
            (Piece::Bishop, Color::White) => self.white_bishops = bb,
            (Piece::Rook, Color::White) => self.white_rooks = bb,
            (Piece::Queen, Color::White) => self.white_queens = bb,
            (Piece::King, Color::White) => self.white_king = bb,
            (Piece::Pawn, Color::Black) => self.black_pawns = bb,
            (Piece::Knight, Color::Black) => self.black_knights = bb,
            (Piece::Bishop, Color::Black) => self.black_bishops = bb,
            (Piece::Rook, Color::Black) => self.black_rooks = bb,
            (Piece::Queen, Color::Black) => self.black_queens = bb,
            (Piece::King, Color::Black) => self.black_king = bb,
        }
    }

    /// The occupant of `square`, if any, with its color.
    pub fn get_piece_at(&self, square: u8) -> (r: Option<(Piece, Color)>)
        requires
            square < 64,
        ensures
            r == spec_piece_at(*self, square),
    {
        let m = 1u64 << (square as u64);
        if self.white_pawns & m != 0 {
            return Some((Piece::Pawn, Color::White));
        }
        if self.white_knights & m != 0 {
            return Some((Piece::Knight, Color::White));
        }
        if self.white_bishops & m != 0 {
            return Some((Piece::Bishop, Color::White));
        }
        if self.white_rooks & m != 0 {
            return Some((Piece::Rook, Color::White));
        }
        if self.white_queens & m != 0 {
            return Some((Piece::Queen, Color::White));
        }
        if self.white_king & m != 0 {
            return Some((Piece::King, Color::White));
        }
        if self.black_pawns & m != 0 {
            return Some((Piece::Pawn, Color::Black));
        }
        if self.black_knights & m != 0 {
            return Some((Piece::Knight, Color::Black));
        }
        if self.black_bishops & m != 0 {
            return Some((Piece::Bishop, Color::Black));
        }
        if self.black_rooks & m != 0 {
            return Some((Piece::Rook, Color::Black));
        }
        if self.black_queens & m != 0 {
            return Some((Piece::Queen, Color::Black));
        }
        if self.black_king & m != 0 {
            return Some((Piece::King, Color::Black));
        }
        None
    }

    /// The union of the six bitboards of `color`.
    pub fn get_all_pieces(&self, color: Color) -> (r: u64)
        ensures
            r == spec_all_pieces(*self, color),
    {
        match color {
            Color::White => self.white_pawns | self.white_knights | self.white_bishops
                | self.white_rooks | self.white_queens | self.white_king,
            Color::Black => self.black_pawns | self.black_knights | self.black_bishops
                | self.black_rooks | self.black_queens | self.black_king,
        }
    }

    /// The union of all twelve bitboards.
    pub fn get_all_occupied(&self) -> (r: u64)
        ensures
            r == (spec_all_pieces(*self, Color::White) | spec_all_pieces(*self, Color::Black)),
    {
        self.get_all_pieces(Color::White) | self.get_all_pieces(Color::Black)
    }

    /// Every square that holds a piece of the given color and kind, in
    /// ascending order.
    pub fn get_piece_squares(&self, color: Color, piece: Piece) -> (r: Vec<u8>)
        ensures
            r@ == spec_bb_squares(spec_get_bb(*self, piece, color)),
    {
        let bb = self.get_bb(piece, color);
        let mut squares: Vec<u8> = Vec::new();
        let mut i: u8 = 0;
        while i < 64
            invariant
                i <= 64,
                squares@ == spec_bb_squares_prefix(bb, i as int),
            decreases 64 - i,
        {
            if bb & (1u64 << (i as u64)) != 0 {
                squares.push(i);
            }
            assert(squares@ == spec_bb_squares_prefix(bb, i as int + 1));
            i = i + 1;
        }
        squares
    }

    /// Apply `mv` to this board, atomically, as [`spec_make_move`] states:
    /// en-passant bookkeeping, removals, placement, the castle's rook
    /// relocation, castling rights, clocks and the side to move. No legality
    /// check happens here: the caller supplies only moves it intends to
    /// commit. A move whose origin square is empty leaves the board
    /// unchanged.
    #[verifier::rlimit(60)]
    pub fn make_move(&mut self, mv: &Moves)
        requires
            mv.from < 64,
            mv.to < 64,
        ensures
            *final(self) == spec_make_move(*old(self), *mv),
    {
        let moving = self.get_piece_at(mv.from);
        let (piece, color) = match moving {
            None => {
                return ;
            },
            Some(pc) => pc,
        };
        let target = self.get_piece_at(mv.to);
        let ghost ob = *old(self);
        let ghost g_placed = (match mv.move_type {
            MoveType::Promotion { piece: pp } => pp,
            MoveType::PromotionCapture { piece: pp } => pp,
            _ => piece,
        });
        let ghost g_b0 = (Board {
            en_passant: if mv.move_type is Double {
                Some(((mv.from + mv.to) / 2) as u8)
            } else {
                None
            },
            ..ob
        });
        let ghost g_b1 = spec_remove_piece(g_b0, piece, color, mv.from);
        let ghost g_b2 = (if mv.move_type is EnPassant {
            spec_remove_piece(g_b1, Piece::Pawn, color.spec_opponent(), spec_ep_square(*mv))
        } else if mv.move_type is Capture || mv.move_type is PromotionCapture {
            match spec_piece_at(ob, mv.to) {
                Some((cp, cc)) => spec_remove_piece(g_b1, cp, cc, mv.to),
                None => g_b1,
            }
        } else {
            g_b1
        });
        let ghost g_b3 = spec_set_piece(g_b2, g_placed, color, mv.to);
        let ghost g_b4 = (if mv.move_type is Castle {
            if mv.to == mv.from + 2 && mv.to + 1 < 64 {
                spec_set_piece(
                    spec_remove_piece(g_b3, Piece::Rook, color, (mv.to + 1) as u8),
                    Piece::Rook,
                    color,
                    (mv.to - 1) as u8,
                )
            } else if mv.from == mv.to + 2 && mv.to >= 2 {
                spec_set_piece(
                    spec_remove_piece(g_b3, Piece::Rook, color, (mv.to - 2) as u8),
                    Piece::Rook,
                    color,
                    (mv.to + 1) as u8,
                )
            } else {
                g_b3
            }
        } else {
            g_b3
        });

        // En-passant target: cleared, then re-set only for a double push.
        self.en_passant = match mv.move_type {
            MoveType::Double => Some((mv.from + mv.to) / 2),
            _ => None,
        };

        assert(*self == g_b0);

        // The mover leaves its origin square.
        self.remove_piece(piece, color, mv.from);
        assert(*self == g_b1);

        // Removals of a captured piece.
        match mv.move_type {
            MoveType::EnPassant => {
                let captured_sq = (mv.from / 8) * 8 + mv.to % 8;
                self.remove_piece(Piece::Pawn, color.opponent(), captured_sq);
            },
            MoveType::Capture | MoveType::PromotionCapture { .. } => {
                if let Some((cp, cc)) = target {
                    self.remove_piece(cp, cc, mv.to);
                }
            },
            _ => {},
        }
        assert(*self == g_b2);

        // The mover — or the piece a promotion chose — lands on `mv.to`.
        let placed = match mv.move_type {
            MoveType::Promotion { piece: pp } => pp,
            MoveType::PromotionCapture { piece: pp } => pp,
            _ => piece,
        };
        self.set_piece(placed, color, mv.to);
        assert(*self == g_b3);

        // A castle also relocates the matching rook.
        if let MoveType::Castle = mv.move_type {
            if mv.to == mv.from + 2 && mv.to + 1 < 64 {
                self.remove_piece(Piece::Rook, color, mv.to + 1);
                self.set_piece(Piece::Rook, color, mv.to - 1);
            } else if mv.from == mv.to + 2 && mv.to >= 2 {
                self.remove_piece(Piece::Rook, color, mv.to - 2);
                self.set_piece(Piece::Rook, color, mv.to + 1);
            }
        }

        assert(*self == g_b4);

        // Castling rights: the king's flags on a king move, a corner's flag
        // whenever its square is left or captured.
        let king_mask: u8 = match (piece, color) {
            (Piece::King, Color::White) => 0x3,
            (Piece::King, Color::Black) => 0xc,
            _ => 0,
        };
        let from_mask = Self::rights_mask(mv.from);
        let to_mask = Self::rights_mask(mv.to);
        self.castling_rights = ((self.castling_rights & !king_mask) & !from_mask) & !to_mask;

        // Clocks: the halfmove clock resets on a pawn move or a capture and
        // otherwise counts up; the fullmove number advances after Black's
        // move; the side to move flips.
        let is_capture = match mv.move_type {
            MoveType::Capture | MoveType::EnPassant | MoveType::PromotionCapture { .. } => true,
            _ => false,
        };
        if piece == Piece::Pawn || is_capture {
            self.halfmove_clock = 0;
        } else if self.halfmove_clock < 0xffff {
            self.halfmove_clock = self.halfmove_clock + 1;
        }
        if color == Color::Black && self.fullmove_number < 0xffff {
            self.fullmove_number = self.fullmove_number + 1;
        }
        self.to_move = !self.to_move;

        assert(*self == spec_make_move(*old(self), *mv));
    }

    /// Read a board from FEN text. The text must read cleanly; a board so
    /// read is well-formed.
    pub fn from_fen(fen: &str) -> (r: Self)
        requires
            crate::fen::spec_parse_fen(fen@) is Some,
        ensures
            Some(r) == crate::fen::spec_parse_fen(fen@),
            spec_wf(r),
    {
        match crate::fen::parse_fen(fen) {
            Ok(b) => b,
            Err(_) => {
                proof {
                    assert(false);
                }
                Board::new()
            },
        }
    }

    /// The castling-rights flags that touching `sq` clears.
    fn rights_mask(sq: u8) -> (r: u8)
        ensures
            r == spec_clear_rights_mask(sq),
    {
        if sq == 0 {
            0x2
        } else if sq == 7 {
            0x1
        } else if sq == 56 {
            0x8
        } else if sq == 63 {
            0x4
        } else {
            0
        }
    }
}

} // verus!
