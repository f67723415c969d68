//! Static evaluation: material, mobility and pawn structure, each scored as
//! White's term minus Black's, and the alpha-beta minimax search over them.

use vstd::prelude::*;

use crate::board::{bb_has, spec_get_bb, Board};
use crate::board::spec_make_move;
use crate::moves::{
    lemma_all_moves_len, lemma_legal_moves_elems, spec_all_moves, spec_legal_moves, Moves,
};
use crate::piece::{Color, Piece};
use crate::util::spec_file;

verus! {

pub const PAWN_VALUE: i32 = 100;

pub const KNIGHT_VALUE: i32 = 300;

pub const BISHOP_VALUE: i32 = 300;

pub const ROOK_VALUE: i32 = 500;

pub const QUEEN_VALUE: i32 = 900;

pub const KING_VALUE: i32 = 0;

/// How many of the first `n` squares are members of `bb`.
pub open spec fn spec_count_prefix(bb: u64, n: int) -> int
    decreases n,
{
    if n <= 0 {
        0
    } else {
        spec_count_prefix(bb, n - 1) + if bb_has(bb, (n - 1) as u8) {
            1int
        } else {
            0int
        }
    }
}

/// How many squares are members of `bb`.
pub open spec fn spec_count(bb: u64) -> int {
    spec_count_prefix(bb, 64)
}

/// A bit count lies between zero and the number of squares scanned.
pub proof fn lemma_count_prefix_bounds(bb: u64, n: int)
    requires
        0 <= n,
    ensures
        0 <= spec_count_prefix(bb, n) <= n,
    decreases n,
{
    if n > 0 {
        lemma_count_prefix_bounds(bb, n - 1);
    }
}

/// The material score of `color`: each piece kind's count times its point
/// value; the king counts for nothing.
pub open spec fn spec_material(board: Board, color: Color) -> int {
    spec_count(spec_get_bb(board, Piece::Pawn, color)) * PAWN_VALUE + spec_count(
        spec_get_bb(board, Piece::Knight, color),
    ) * KNIGHT_VALUE + spec_count(spec_get_bb(board, Piece::Bishop, color)) * BISHOP_VALUE
        + spec_count(spec_get_bb(board, Piece::Rook, color)) * ROOK_VALUE + spec_count(
        spec_get_bb(board, Piece::Queen, color),
    ) * QUEEN_VALUE
}

/// The mobility score of `color`: ten points per pseudo-legal move. Counting
/// pseudo-legal rather than legal moves is an intentional, cheaper
/// approximation.
pub open spec fn spec_mobility(board: Board, color: Color) -> int {
    spec_all_moves(board, color).len() * 10int
}

/// Whether some square of `bb` lies on `file` at a rank at least `lo` and
/// below `hi`.
pub open spec fn spec_file_range_has(bb: u64, file: int, lo: int, hi: int) -> bool
    decreases hi - lo,
{
    if hi <= lo {
        false
    } else {
        spec_file_range_has(bb, file, lo, hi - 1) || bb_has(bb, ((hi - 1) * 8 + file) as u8)
    }
}

/// Whether some square of `bb` lies on `file`, at any rank.
pub open spec fn spec_file_has(bb: u64, file: int) -> bool {
    spec_file_range_has(bb, file, 0, 8)
}

/// Whether the pawn of `pawns` on `sq` is isolated: no friendly pawn stands
/// on an adjacent file.
pub open spec fn spec_isolated(pawns: u64, sq: u8) -> bool {
    let file = spec_file(sq) as int;
    !(file > 0 && spec_file_has(pawns, file - 1)) && !(file < 7 && spec_file_has(pawns, file + 1))
}

/// Whether the pawn of `pawns` on `sq` is doubled: another friendly pawn
/// stands on the same file, toward the color's own back rank.
pub open spec fn spec_doubled(pawns: u64, sq: u8, color: Color) -> bool {
    let file = spec_file(sq) as int;
    let rank = (sq / 8) as int;
    match color {
        Color::White => spec_file_range_has(pawns, file, 0, rank),
        Color::Black => spec_file_range_has(pawns, file, rank + 1, 8),
    }
}

/// Whether the pawn on `sq` is passed: no enemy pawn stands ahead of it, in
/// the color's direction of advance, on its own or an adjacent file.
pub open spec fn spec_passed(enemy_pawns: u64, sq: u8, color: Color) -> bool {
    let file = spec_file(sq) as int;
    let rank = (sq / 8) as int;
    let lo = match color {
        Color::White => rank + 1,
        Color::Black => 0,
    };
    let hi = match color {
        Color::White => 8,
        Color::Black => rank,
    };
    !(file > 0 && spec_file_range_has(enemy_pawns, file - 1, lo, hi)) && !spec_file_range_has(
        enemy_pawns,
        file,
        lo,
        hi,
    ) && !(file < 7 && spec_file_range_has(enemy_pawns, file + 1, lo, hi))
}

/// What one square adds to the pawn-structure score: for a friendly pawn, 30
/// off when isolated, 20 off when doubled, 30 on when passed; nothing for an
/// empty square.
pub open spec fn spec_pawn_score_at(pawns: u64, enemy_pawns: u64, color: Color, sq: u8) -> int {
    if bb_has(pawns, sq) {
        (if spec_isolated(pawns, sq) {
            -30int
        } else {
            0int
        }) + (if spec_doubled(pawns, sq, color) {
            -20int
        } else {
            0int
        }) + (if spec_passed(enemy_pawns, sq, color) {
            30int
        } else {
            0int
        })
    } else {
        0
    }
}

/// The pawn-structure score of the first `n` squares.
pub open spec fn spec_pawn_structure_prefix(
    pawns: u64,
    enemy_pawns: u64,
    color: Color,
    n: int,
) -> int
    decreases n,
{
    if n <= 0 {
        0
    } else {
        spec_pawn_structure_prefix(pawns, enemy_pawns, color, n - 1) + spec_pawn_score_at(
            pawns,
            enemy_pawns,
            color,
            (n - 1) as u8,
        )
    }
}

/// The pawn-structure score of `color`: per pawn, a penalty for isolation, a
/// penalty for being doubled, and a bonus for being passed.
pub open spec fn spec_pawn_structure(board: Board, color: Color) -> int {
    let pawns = spec_get_bb(board, Piece::Pawn, color);
    let enemy_pawns = spec_get_bb(board, Piece::Pawn, color.spec_opponent());
    spec_pawn_structure_prefix(pawns, enemy_pawns, color, 64)
}

/// A pawn-structure prefix stays within 50 points per square scanned.
pub proof fn lemma_pawn_structure_prefix_bounds(pawns: u64, enemy_pawns: u64, color: Color, n: int)
    requires
        0 <= n,
    ensures
        -50 * n <= spec_pawn_structure_prefix(pawns, enemy_pawns, color, n) <= 50 * n,
    decreases n,
{
    if n > 0 {
        lemma_pawn_structure_prefix_bounds(pawns, enemy_pawns, color, n - 1);
    }
}

/// The whole static score: the three balances summed, positive favoring
/// White.
pub open spec fn spec_evaluate(board: Board) -> int {
    (spec_material(board, Color::White) - spec_material(board, Color::Black)) + (spec_mobility(
        board,
        Color::White,
    ) - spec_mobility(board, Color::Black)) + (spec_pawn_structure(board, Color::White)
        - spec_pawn_structure(board, Color::Black))
}

/// The larger of two integers.
pub open spec fn spec_max(a: int, b: int) -> int {
    if a >= b {
        a
    } else {
        b
    }
}

/// The smaller of two integers.
pub open spec fn spec_min(a: int, b: int) -> int {
    if a <= b {
        a
    } else {
        b
    }
}

/// The side a search node moves for: White maximizes, Black minimizes.
pub open spec fn spec_search_color(maximizing: bool) -> Color {
    if maximizing {
        Color::White
    } else {
        Color::Black
    }
}

/// The minimax value of `board` at `depth`: the static score at depth zero,
/// else the maximum (White) or minimum (Black) over the mover's legal moves
/// of the child values one ply down. A node without legal moves keeps the
/// fold's start value — the worst score for the side to move.
pub open spec fn spec_minimax(board: Board, depth: nat, maximizing: bool) -> int
    decreases depth, 1int, 0int,
{
    if depth == 0 {
        spec_evaluate(board)
    } else {
        let moves = spec_legal_moves(board, spec_search_color(maximizing));
        spec_minimax_fold(board, moves, depth, maximizing, moves.len() as int)
    }
}

/// The running maximum or minimum over the child values of the first `i`
/// moves, starting from the worst score for the side to move.
pub open spec fn spec_minimax_fold(
    board: Board,
    moves: Seq<Moves>,
    depth: nat,
    maximizing: bool,
    i: int,
) -> int
    decreases depth, 0int, i,
{
    if i <= 0 || depth == 0 {
        if maximizing {
            i32::MIN as int
        } else {
            i32::MAX as int
        }
    } else {
        let prev = spec_minimax_fold(board, moves, depth, maximizing, i - 1);
        let child = spec_minimax(spec_make_move(board, moves[i - 1]), (depth - 1) as nat, !maximizing);
        if maximizing {
            spec_max(prev, child)
        } else {
            spec_min(prev, child)
        }
    }
}

/// The static score fits comfortably in a machine integer.
pub proof fn lemma_evaluate_bounds(board: Board)
    ensures
        -400000 <= spec_evaluate(board) <= 400000,
{
    lemma_count_prefix_bounds(spec_get_bb(board, Piece::Pawn, Color::White), 64);
    lemma_count_prefix_bounds(spec_get_bb(board, Piece::Knight, Color::White), 64);
    lemma_count_prefix_bounds(spec_get_bb(board, Piece::Bishop, Color::White), 64);
    lemma_count_prefix_bounds(spec_get_bb(board, Piece::Rook, Color::White), 64);
    lemma_count_prefix_bounds(spec_get_bb(board, Piece::Queen, Color::White), 64);
    lemma_count_prefix_bounds(spec_get_bb(board, Piece::Pawn, Color::Black), 64);
    lemma_count_prefix_bounds(spec_get_bb(board, Piece::Knight, Color::Black), 64);
    lemma_count_prefix_bounds(spec_get_bb(board, Piece::Bishop, Color::Black), 64);
    lemma_count_prefix_bounds(spec_get_bb(board, Piece::Rook, Color::Black), 64);
    lemma_count_prefix_bounds(spec_get_bb(board, Piece::Queen, Color::Black), 64);
    lemma_all_moves_len(board, Color::White);
    lemma_all_moves_len(board, Color::Black);
    lemma_pawn_structure_prefix_bounds(
        spec_get_bb(board, Piece::Pawn, Color::White),
        spec_get_bb(board, Piece::Pawn, Color::Black),
        Color::White,
        64,
    );
    lemma_pawn_structure_prefix_bounds(
        spec_get_bb(board, Piece::Pawn, Color::Black),
        spec_get_bb(board, Piece::Pawn, Color::White),
        Color::Black,
        64,
    );
}

/// Every minimax value fits in a machine integer.
pub proof fn lemma_minimax_bounds(board: Board, depth: nat, maximizing: bool)
    ensures
        i32::MIN <= spec_minimax(board, depth, maximizing) <= i32::MAX,
    decreases depth, 1int, 0int,
{
    if depth == 0 {
        lemma_evaluate_bounds(board);
    } else {
        let moves = spec_legal_moves(board, spec_search_color(maximizing));
        lemma_minimax_fold_bounds(board, moves, depth, maximizing, moves.len() as int);
    }
}

/// Every partial fold of child values fits in a machine integer.
pub proof fn lemma_minimax_fold_bounds(
    board: Board,
    moves: Seq<Moves>,
    depth: nat,
    maximizing: bool,
    i: int,
)
    ensures
        i32::MIN <= spec_minimax_fold(board, moves, depth, maximizing, i) <= i32::MAX,
    decreases depth, 0int, i,
{
    if i > 0 && depth > 0 {
        lemma_minimax_fold_bounds(board, moves, depth, maximizing, i - 1);
        lemma_minimax_bounds(spec_make_move(board, moves[i - 1]), (depth - 1) as nat, !maximizing);
    }
}

/// Folding further moves never lowers a maximizing fold and never raises a
/// minimizing one.
pub proof fn lemma_minimax_fold_mono(
    board: Board,
    moves: Seq<Moves>,
    depth: nat,
    maximizing: bool,
    i: int,
    j: int,
)
    requires
        0 <= i <= j,
    ensures
        maximizing ==> spec_minimax_fold(board, moves, depth, maximizing, i) <= spec_minimax_fold(
            board,
            moves,
            depth,
            maximizing,
            j,
        ),
        !maximizing ==> spec_minimax_fold(board, moves, depth, maximizing, i) >= spec_minimax_fold(
            board,
            moves,
            depth,
            maximizing,
            j,
        ),
    decreases j - i,
{
    if i < j {
        lemma_minimax_fold_mono(board, moves, depth, maximizing, i, j - 1);
    }
}

/// The static evaluator and the alpha-beta search over it.
pub struct Eval {}

impl Eval {
    /// The point value of a piece kind: pawn 100, knight and bishop 300,
    /// rook 500, queen 900, king 0.
    pub fn match_piece_value(piece: Piece) -> (r: i32)
        ensures
            r == match piece {
                Piece::Pawn => PAWN_VALUE as int,
                Piece::Knight => KNIGHT_VALUE as int,
                Piece::Bishop => BISHOP_VALUE as int,
                Piece::Rook => ROOK_VALUE as int,
                Piece::Queen => QUEEN_VALUE as int,
                Piece::King => KING_VALUE as int,
            },
    {
        match piece {
            Piece::Pawn => PAWN_VALUE,
            Piece::Knight => KNIGHT_VALUE,
            Piece::Bishop => BISHOP_VALUE,
            Piece::Rook => ROOK_VALUE,
            Piece::Queen => QUEEN_VALUE,
            Piece::King => KING_VALUE,
        }
    }

    /// How many squares are members of `bb`.
    fn count_bits(bb: u64) -> (r: u32)
        ensures
            r == spec_count(bb),
            r <= 64,
    {
        let mut count: u32 = 0;
        let mut i: u8 = 0;
        while i < 64
            invariant
                i <= 64,
                count == spec_count_prefix(bb, i as int),
                count <= i,
            decreases 64 - i,
        {
            if bb & (1u64 << (i as u64)) != 0 {
                count = count + 1;
            }
            i = i + 1;
        }
        count
    }

    /// The material score of `color`.
    pub fn material(board: &Board, color: Color) -> (r: i32)
        ensures
            r == spec_material(*board, color),
            0 <= r <= 134400,
    {
        let pawns = Self::count_bits(board.get_bb(Piece::Pawn, color)) as i32;
        let knights = Self::count_bits(board.get_bb(Piece::Knight, color)) as i32;
        let bishops = Self::count_bits(board.get_bb(Piece::Bishop, color)) as i32;
        let rooks = Self::count_bits(board.get_bb(Piece::Rook, color)) as i32;
        let queens = Self::count_bits(board.get_bb(Piece::Queen, color)) as i32;
        pawns * PAWN_VALUE + knights * KNIGHT_VALUE + bishops * BISHOP_VALUE + rooks * ROOK_VALUE
            + queens * QUEEN_VALUE
    }

    /// The material balance: White's material minus Black's.
    pub fn material_balance(board: &Board) -> (r: i32)
        ensures
            r == spec_material(*board, Color::White) - spec_material(*board, Color::Black),
            -134400 <= r <= 134400,
    {
        Self::material(board, Color::White) - Self::material(board, Color::Black)
    }

    /// The mobility score of `color`: ten points per pseudo-legal move.
    pub fn mobility(board: &Board, color: Color) -> (r: i32)
        ensures
            r == spec_mobility(*board, color),
            0 <= r <= 215060,
    {
        let moves = Moves::generate_all_moves(board, color);
        proof {
            lemma_all_moves_len(*board, color);
        }
        (moves.len() as i32) * 10
    }

    /// The mobility balance: White's mobility minus Black's.
    pub fn mobility_balance(board: &Board) -> (r: i32)
        ensures
            r == spec_mobility(*board, Color::White) - spec_mobility(*board, Color::Black),
            -215060 <= r <= 215060,
    {
        Self::mobility(board, Color::White) - Self::mobility(board, Color::Black)
    }

    /// Whether some square of `bb` lies on `file` at a rank at least `lo`
    /// and below `hi`.
    fn file_range_has(bb: u64, file: u8, lo: u8, hi: u8) -> (r: bool)
        requires
            file < 8,
            lo <= 8,
            hi <= 8,
        ensures
            r == spec_file_range_has(bb, file as int, lo as int, hi as int),
    {
        let mut found = false;
        let mut rank = lo;
        while rank < hi
            invariant
                file < 8,
                lo <= 8,
                hi <= 8,
                lo <= rank <= 8,
                rank <= hi || rank == lo,
                found == spec_file_range_has(bb, file as int, lo as int, rank as int),
            decreases 8 - rank,
        {
            if bb & (1u64 << ((rank * 8 + file) as u64)) != 0 {
                found = true;
            }
            rank = rank + 1;
        }
        assert(rank == if lo <= hi { hi } else { lo });
        found
    }

    /// What one square adds to the pawn-structure score of `color`.
    fn pawn_score_at(pawns: u64, enemy_pawns: u64, color: Color, sq: u8) -> (r: i32)
        requires
            sq < 64,
        ensures
            r == spec_pawn_score_at(pawns, enemy_pawns, color, sq),
            -50 <= r <= 30,
    {
        if pawns & (1u64 << (sq as u64)) == 0 {
            return 0;
        }
        let file = sq % 8;
        let rank = sq / 8;
        let mut score: i32 = 0;

        // Isolation: no friendly pawn on an adjacent file.
        let left = file > 0 && Self::file_range_has(pawns, file - 1, 0, 8);
        let right = file < 7 && Self::file_range_has(pawns, file + 1, 0, 8);
        if !left && !right {
            score = score - 30;
        }

        // Doubled: another friendly pawn on the same file, toward the
        // color's own back rank.
        let doubled = match color {
            Color::White => Self::file_range_has(pawns, file, 0, rank),
            Color::Black => Self::file_range_has(pawns, file, rank + 1, 8),
        };
        if doubled {
            score = score - 20;
        }

        // Passed: no enemy pawn ahead on this or an adjacent file.
        let (lo, hi) = match color {
            Color::White => (rank + 1, 8),
            Color::Black => (0, rank),
        };
        let ahead_left = file > 0 && Self::file_range_has(enemy_pawns, file - 1, lo, hi);
        let ahead_mid = Self::file_range_has(enemy_pawns, file, lo, hi);
        let ahead_right = file < 7 && Self::file_range_has(enemy_pawns, file + 1, lo, hi);
        if !ahead_left && !ahead_mid && !ahead_right {
            score = score + 30;
        }

        score
    }

    /// The pawn-structure score of `color`: per pawn, 30 points off when
    /// isolated, 20 off when doubled, 30 on when passed.
    pub fn pawn_structure(board: &Board, color: Color) -> (r: i32)
        ensures
            r == spec_pawn_structure(*board, color),
            -3200 <= r <= 3200,
    {
        let pawns = board.get_bb(Piece::Pawn, color);
        let enemy_pawns = board.get_bb(Piece::Pawn, color.opponent());
        let mut score: i32 = 0;
        let mut sq: u8 = 0;
        while sq < 64
            invariant
                sq <= 64,
                score == spec_pawn_structure_prefix(pawns, enemy_pawns, color, sq as int),
                -50 * sq <= score <= 50 * sq,
            decreases 64 - sq,
        {
            let delta = Self::pawn_score_at(pawns, enemy_pawns, color, sq);
            score = score + delta;
            sq = sq + 1;
        }
        score
    }

    /// The pawn-structure balance: White's score minus Black's.
    pub fn pawn_structure_balance(board: &Board) -> (r: i32)
        ensures
            r == spec_pawn_structure(*board, Color::White) - spec_pawn_structure(
                *board,
                Color::Black,
            ),
            -6400 <= r <= 6400,
    {
        Self::pawn_structure(board, Color::White) - Self::pawn_structure(board, Color::Black)
    }

    /// The whole static score: material, mobility and pawn-structure
    /// balances summed; positive favors White.
    #[verifier::rlimit(60)]
    pub fn evaluate(board: &Board) -> (r: i32)
        ensures
            r == spec_evaluate(*board),
            -400000 <= r <= 400000,
    {
        let material = Self::material_balance(board);
        let mobility = Self::mobility_balance(board);
        let pawn_structure = Self::pawn_structure_balance(board);

        material + mobility + pawn_structure
    }

    /// The full minimax value of `board` at `depth`, folding every child
    /// without pruning: the unpruned reference the alpha-beta search is held
    /// to.
    pub fn minimax(board: &Board, depth: u8, maximizing_player: bool) -> (r: i32)
        ensures
            r == spec_minimax(*board, depth as nat, maximizing_player),
        decreases depth,
    {
        if depth == 0 {
            return Self::evaluate(board);
        }
        let color = if maximizing_player {
            Color::White
        } else {
            Color::Black
        };
        let moves = Moves::generate_legal_moves(board, color);
        proof {
            lemma_legal_moves_elems(*board, color);
        }
        let n = moves.len();
        let mut acc: i32 = if maximizing_player {
            i32::MIN
        } else {
            i32::MAX
        };
        let mut i: usize = 0;
        while i < n
            invariant
                1 <= depth,
                n == moves@.len(),
                moves@ == spec_legal_moves(*board, spec_search_color(maximizing_player)),
                forall|k: int|
                    0 <= k < n ==> crate::moves::spec_is_legal(
                        *board,
                        #[trigger] moves@[k],
                        spec_search_color(maximizing_player),
                    ),
                i <= n,
                acc == spec_minimax_fold(
                    *board,
                    moves@,
                    depth as nat,
                    maximizing_player,
                    i as int,
                ),
            decreases n - i,
        {
            let mv = moves[i];
            let mut child = *board;
            child.make_move(&mv);
            let val = Self::minimax(&child, depth - 1, !maximizing_player);
            if maximizing_player {
                if val > acc {
                    acc = val;
                }
            } else {
                if val < acc {
                    acc = val;
                }
            }
            i = i + 1;
        }
        acc
    }

    /// Alpha-beta search: minimax with pruning. Within an open window the
    /// pruned score equals the full minimax score; a value at or below
    /// `alpha`, or at or above `beta`, is only promised to stay on its side
    /// of the window.
    pub fn alpha_beta(
        board: &Board,
        depth: u8,
        alpha: i32,
        beta: i32,
        maximizing_player: bool,
    ) -> (r: i32)
        requires
            alpha < beta,
        ensures
            ({
                let v = spec_minimax(*board, depth as nat, maximizing_player);
                &&& (alpha < v < beta ==> r == v)
                &&& (v <= alpha ==> r <= alpha)
                &&& (v >= beta ==> r >= beta)
            }),
        decreases depth,
    {
        if depth == 0 {
            return Self::evaluate(board);
        }
        let color = if maximizing_player {
            Color::White
        } else {
            Color::Black
        };
        let moves = Moves::generate_legal_moves(board, color);
        proof {
            lemma_legal_moves_elems(*board, color);
        }
        let n = moves.len();

        if maximizing_player {
            let mut max_eval = i32::MIN;
            let mut a = alpha;
            let mut pruned = false;
            let mut i: usize = 0;
            while i < n && !pruned
                invariant
                    1 <= depth,
                    alpha < beta,
                    n == moves@.len(),
                    moves@ == spec_legal_moves(*board, spec_search_color(true)),
                    forall|k: int|
                        0 <= k < n ==> crate::moves::spec_is_legal(
                            *board,
                            #[trigger] moves@[k],
                            spec_search_color(true),
                        ),
                    i <= n,
                    !pruned ==> a == spec_max(alpha as int, max_eval as int),
                    !pruned ==> a < beta,
                    !pruned ==> max_eval <= spec_max(
                        alpha as int,
                        spec_minimax_fold(*board, moves@, depth as nat, true, i as int),
                    ),
                    !pruned ==> spec_minimax_fold(*board, moves@, depth as nat, true, i as int)
                        <= spec_max(alpha as int, max_eval as int),
                    pruned ==> max_eval >= beta && spec_minimax_fold(
                        *board,
                        moves@,
                        depth as nat,
                        true,
                        i as int,
                    ) >= beta,
                decreases n - i,
            {
                let mv = moves[i];
                let mut child = *board;
                child.make_move(&mv);
                let eval = Self::alpha_beta(&child, depth - 1, a, beta, false);
                proof {
                    let vi = spec_minimax(spec_make_move(*board, moves@[i as int]), (depth - 1) as nat, false);
                    assert(spec_minimax_fold(*board, moves@, depth as nat, true, i as int + 1)
                        == spec_max(
                        spec_minimax_fold(*board, moves@, depth as nat, true, i as int),
                        vi,
                    ));
                    assert(eval >= beta ==> vi >= beta);
                }
                if eval > max_eval {
                    max_eval = eval;
                }
                if eval > a {
                    a = eval;
                }
                if beta <= a {
                    pruned = true;
                }
                i = i + 1;
            }
            proof {
                lemma_minimax_fold_mono(*board, moves@, depth as nat, true, i as int, n as int);
            }
            max_eval
        } else {
            let mut min_eval = i32::MAX;
            let mut b = beta;
            let mut pruned = false;
            let mut i: usize = 0;
            while i < n && !pruned
                invariant
                    1 <= depth,
                    alpha < beta,
                    n == moves@.len(),
                    moves@ == spec_legal_moves(*board, spec_search_color(false)),
                    forall|k: int|
                        0 <= k < n ==> crate::moves::spec_is_legal(
                            *board,
                            #[trigger] moves@[k],
                            spec_search_color(false),
                        ),
                    i <= n,
                    !pruned ==> b == spec_min(beta as int, min_eval as int),
                    !pruned ==> alpha < b,
                    !pruned ==> min_eval >= spec_min(
                        beta as int,
                        spec_minimax_fold(*board, moves@, depth as nat, false, i as int),
                    ),
                    !pruned ==> spec_minimax_fold(*board, moves@, depth as nat, false, i as int)
                        >= spec_min(beta as int, min_eval as int),
                    pruned ==> min_eval <= alpha && spec_minimax_fold(
                        *board,
                        moves@,
                        depth as nat,
                        false,
                        i as int,
                    ) <= alpha,
                decreases n - i,
            {
                let mv = moves[i];
                let mut child = *board;
                child.make_move(&mv);
                let eval = Self::alpha_beta(&child, depth - 1, alpha, b, true);
                proof {
                    let vi = spec_minimax(spec_make_move(*board, moves@[i as int]), (depth - 1) as nat, true);
                    assert(spec_minimax_fold(*board, moves@, depth as nat, false, i as int + 1)
                        == spec_min(
                        spec_minimax_fold(*board, moves@, depth as nat, false, i as int),
                        vi,
                    ));
                    assert(eval <= alpha ==> vi <= alpha);
                }
                if eval < min_eval {
                    min_eval = eval;
                }
                if eval < b {
                    b = eval;
                }
                if b <= alpha {
                    pruned = true;
                }
                i = i + 1;
            }
            proof {
                lemma_minimax_fold_mono(*board, moves@, depth as nat, false, i as int, n as int);
            }
            min_eval
        }
    }
}

} // verus!
