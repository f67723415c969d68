//! A playable game: a board, the player to move, and the history of moves
//! in coordinate notation, with move entry by several notations.

use vstd::prelude::*;
use vstd::string::{StrSliceExecFns, StringExecFns};

use crate::board::{spec_make_move, Board};
use crate::fen::{spec_parse_fen, spec_split};
use crate::moves::{
    spec_has_king, spec_checkmate, spec_king_start, spec_legal_moves, spec_stalemate, MoveType,
    Moves,
};
use crate::piece::{Color, Piece};
use crate::util::{pos_to_u8, spec_parse_algebraic, spec_parse_square};

verus! {

/// Whether a move goes between the given squares and fits the promotion
/// choice: with a chosen piece the move must promote to exactly that piece,
/// and without one it must not promote at all.
pub open spec fn spec_move_matches(mv: Moves, from: u8, to: u8, promo: Option<Piece>) -> bool {
    mv.from == from && mv.to == to && match promo {
        Some(p) => mv.move_type == (MoveType::Promotion { piece: p }) || mv.move_type == (
        MoveType::PromotionCapture { piece: p }),
        None => !(mv.move_type is Promotion || mv.move_type is PromotionCapture),
    }
}

/// The first move of `moves` between the given squares that fits the
/// promotion choice, if any.
pub open spec fn spec_find_move(moves: Seq<Moves>, from: u8, to: u8, promo: Option<Piece>) -> Option<
    Moves,
>
    decreases moves.len(),
{
    if moves.len() == 0 {
        None
    } else if spec_move_matches(moves[0], from, to, promo) {
        Some(moves[0])
    } else {
        spec_find_move(moves.drop_first(), from, to, promo)
    }
}

/// Whether `c` writes the letter o, in either case.
pub open spec fn spec_is_o(c: char) -> bool {
    c == 'o' || c == 'O'
}

/// Whether a text asks for kingside castling: "O-O" or "0-0", letters in
/// either case.
pub open spec fn spec_castle_kingside_input(s: Seq<char>) -> bool {
    s.len() == 3 && s[1] == '-' && ((spec_is_o(s[0]) && spec_is_o(s[2])) || (s[0] == '0' && s[2]
        == '0'))
}

/// Whether a text asks for queenside castling: "O-O-O" or "0-0-0", letters
/// in either case.
pub open spec fn spec_castle_queenside_input(s: Seq<char>) -> bool {
    s.len() == 5 && s[1] == '-' && s[3] == '-' && ((spec_is_o(s[0]) && spec_is_o(s[2]) && spec_is_o(
        s[4],
    )) || (s[0] == '0' && s[2] == '0' && s[4] == '0'))
}

/// The move a text asks for, against the legal moves of `color` on `board`:
/// a castling request yields the castle move unchecked, coordinate notation
/// is matched against the legal moves with its promotion choice, and two
/// space-separated squares are matched against the non-promoting legal
/// moves.
pub open spec fn spec_parse_move_input(board: Board, color: Color, s: Seq<char>) -> Option<Moves> {
    if spec_castle_kingside_input(s) {
        Some(
            Moves {
                from: spec_king_start(color),
                to: (spec_king_start(color) + 2) as u8,
                move_type: MoveType::Castle,
            },
        )
    } else if spec_castle_queenside_input(s) {
        Some(
            Moves {
                from: spec_king_start(color),
                to: (spec_king_start(color) - 2) as u8,
                move_type: MoveType::Castle,
            },
        )
    } else {
        let coordinate = match spec_parse_algebraic(s) {
            Some((from, to, promo)) => spec_find_move(
                spec_legal_moves(board, color),
                from,
                to,
                promo,
            ),
            None => None,
        };
        match coordinate {
            Some(mv) => Some(mv),
            None => {
                let fields = spec_split(s);
                if fields.len() == 2 {
                    match (spec_parse_square(fields[0]), spec_parse_square(fields[1])) {
                        (Some(from), Some(to)) => spec_find_move(
                            spec_legal_moves(board, color),
                            from,
                            to,
                            None,
                        ),
                        _ => None,
                    }
                } else {
                    None
                }
            },
        }
    }
}

/// Whether `c` writes the letter o, in either case.
fn is_o(c: char) -> (r: bool)
    ensures
        r == spec_is_o(c),
{
    c == 'o' || c == 'O'
}

/// A move the finder returns comes from the list and fits the criteria.
pub proof fn lemma_find_move_contained(moves: Seq<Moves>, from: u8, to: u8, promo: Option<Piece>)
    ensures
        spec_find_move(moves, from, to, promo) matches Some(m) ==> moves.contains(m)
            && spec_move_matches(m, from, to, promo),
    decreases moves.len(),
{
    if moves.len() > 0 && !spec_move_matches(moves[0], from, to, promo) {
        lemma_find_move_contained(moves.drop_first(), from, to, promo);
        match spec_find_move(moves, from, to, promo) {
            Some(m) => {
                assert(moves.drop_first().contains(m));
                let k = choose|k: int|
                    0 <= k < moves.drop_first().len() && moves.drop_first()[k] == m;
                assert(moves[k + 1] == m);
            },
            None => {},
        }
    }
}

/// A lower-case or upper-case letter a through z.
pub open spec fn spec_is_ascii_lowercase(c: char) -> bool {
    'a' <= c <= 'z'
}

/// A decimal digit character.
pub open spec fn spec_is_ascii_digit(c: char) -> bool {
    '0' <= c <= '9'
}

/// Whether a text is shaped like a move entry: four characters of
/// coordinate notation, six characters holding an equals sign, or two
/// space-separated square names.
pub open spec fn spec_looks_like_move_input(s: Seq<char>) -> bool {
    ||| (s.len() == 4 && spec_is_ascii_lowercase(s[0]) && spec_is_ascii_digit(s[1])
        && spec_is_ascii_lowercase(s[2]) && spec_is_ascii_digit(s[3]))
    ||| (s.len() == 6 && exists|i: int| 0 <= i < 6 && s[i] == '=')
    ||| ({
        let fields = spec_split(s);
        fields.len() == 2 && fields[0].len() == 2 && fields[1].len() == 2
            && spec_is_ascii_lowercase(fields[0][0]) && spec_is_ascii_digit(fields[0][1])
            && spec_is_ascii_lowercase(fields[1][0]) && spec_is_ascii_digit(fields[1][1])
    })
}

/// The standard starting position: the full back ranks and pawn ranks of
/// both sides, White to move, all castling rights, fresh clocks.
pub open spec fn spec_start_board() -> Board {
    Board {
        white_pawns: 0xff00u64,
        white_knights: 0x42u64,
        white_bishops: 0x24u64,
        white_rooks: 0x81u64,
        white_queens: 0x8u64,
        white_king: 0x10u64,
        black_pawns: 0xff000000000000u64,
        black_knights: 0x4200000000000000u64,
        black_bishops: 0x2400000000000000u64,
        black_rooks: 0x8100000000000000u64,
        black_queens: 0x800000000000000u64,
        black_king: 0x1000000000000000u64,
        to_move: true,
        halfmove_clock: 0,
        fullmove_number: 1,
        en_passant: None,
        castling_rights: 0xf,
    }
}

/// A game in play: the board, the player to move, and the moves played so
/// far in coordinate notation.
pub struct ChessGame {
    board: Board,
    current_player: Color,
    move_history: Vec<String>,
}

impl ChessGame {
    /// The board as a mathematical value, for contracts.
    pub closed spec fn spec_board(self) -> Board {
        self.board
    }

    /// The player to move, for contracts.
    pub closed spec fn spec_player(self) -> Color {
        self.current_player
    }

    /// The history of played moves, for contracts.
    pub closed spec fn spec_history(self) -> Seq<String> {
        self.move_history@
    }

    /// A new game from the standard starting position, White to move, no
    /// history.
    pub fn new() -> (r: Self)
        ensures
            r.spec_board() == spec_start_board(),
            r.spec_player() == Color::White,
            r.spec_history().len() == 0,
    {
        Self {
            board: Board {
                white_pawns: 0xff00,
                white_knights: 0x42,
                white_bishops: 0x24,
                white_rooks: 0x81,
                white_queens: 0x8,
                white_king: 0x10,
                black_pawns: 0xff000000000000,
                black_knights: 0x4200000000000000,
                black_bishops: 0x2400000000000000,
                black_rooks: 0x8100000000000000,
                black_queens: 0x800000000000000,
                black_king: 0x1000000000000000,
                to_move: true,
                halfmove_clock: 0,
                fullmove_number: 1,
                en_passant: None,
                castling_rights: 0xf,
            },
            current_player: Color::White,
            move_history: Vec::new(),
        }
    }

    /// A game set up from FEN text, which must read cleanly; White is taken
    /// to be the player to move, as the interactive session assumes.
    pub fn from_fen(fen: &str) -> (r: Self)
        requires
            spec_parse_fen(fen@) is Some,
        ensures
            Some(r.spec_board()) == spec_parse_fen(fen@),
            r.spec_player() == Color::White,
            r.spec_history().len() == 0,
    {
        Self {
            board: Board::from_fen(fen),
            current_player: Color::White,
            move_history: Vec::new(),
        }
    }

    /// The move a text asks for, matched against the current player's legal
    /// moves; castling requests are built directly.
    pub fn parse_move_input(&self, input: &str) -> (r: Option<Moves>)
        ensures
            r == spec_parse_move_input(self.spec_board(), self.spec_player(), input@),
    {
        let n = input.unicode_len();

        // Castling shortcuts.
        let king_from: u8 = match self.current_player {
            Color::White => 4,
            Color::Black => 60,
        };
        if n == 3 {
            let c0 = input.get_char(0);
            let c1 = input.get_char(1);
            let c2 = input.get_char(2);
            if c1 == '-' && ((is_o(c0) && is_o(c2)) || (c0 == '0' && c2 == '0')) {
                return Some(Moves { from: king_from, to: king_from + 2, move_type: MoveType::Castle });
            }
        }
        if n == 5 {
            let c0 = input.get_char(0);
            let c1 = input.get_char(1);
            let c2 = input.get_char(2);
            let c3 = input.get_char(3);
            let c4 = input.get_char(4);
            if c1 == '-' && c3 == '-' && ((is_o(c0) && is_o(c2) && is_o(c4)) || (c0 == '0' && c2
                == '0' && c4 == '0')) {
                return Some(Moves { from: king_from, to: king_from - 2, move_type: MoveType::Castle });
            }
        }

        // Coordinate notation, matched against the legal moves.
        let legal_moves = Moves::generate_legal_moves(&self.board, self.current_player);
        if let Some((from, to, promotion)) = crate::util::parse_algebraic(input) {
            if let Some(mv) = Self::find_move(&legal_moves, from, to, promotion) {
                return Some(mv);
            }
        }

        // Two space-separated square names.
        let ghost fields = spec_split(input@);
        let boundaries = Self::space_positions(input);
        if boundaries.len() == 1 {
            let p = boundaries[0];
            let from_text = input.substring_char(0, p);
            let to_text = input.substring_char(p + 1, n);
            match (pos_to_u8(from_text), pos_to_u8(to_text)) {
                (Some(from), Some(to)) => {
                    return Self::find_move(&legal_moves, from, to, None);
                },
                _ => {
                    return None;
                },
            }
        }
        None
    }

    /// Whether a text is shaped like a move entry, whatever the position:
    /// four characters of coordinate notation, six characters holding an
    /// equals sign, or two space-separated square names.
    pub fn looks_like_move_input(&self, input: &str) -> (r: bool)
        ensures
            r == spec_looks_like_move_input(input@),
    {
        let n = input.unicode_len();
        if n == 4 {
            let c0 = input.get_char(0);
            let c1 = input.get_char(1);
            let c2 = input.get_char(2);
            let c3 = input.get_char(3);
            if 'a' <= c0 && c0 <= 'z' && '0' <= c1 && c1 <= '9' && 'a' <= c2 && c2 <= 'z' && '0'
                <= c3 && c3 <= '9' {
                return true;
            }
        }
        if n == 6 {
            let mut i: usize = 0;
            while i < 6
                invariant
                    n == input@.len(),
                    n == 6,
                    i <= 6,
                    forall|k: int| 0 <= k < i ==> input@[k] != '=',
                decreases 6 - i,
            {
                if input.get_char(i) == '=' {
                    return true;
                }
                i = i + 1;
            }
        }
        let boundaries = Self::space_positions(input);
        if boundaries.len() == 1 {
            let p = boundaries[0];
            if p == 2 && n == 5 {
                let ghost fields = spec_split(input@);
                let c0 = input.get_char(0);
                let c1 = input.get_char(1);
                let c3 = input.get_char(3);
                let c4 = input.get_char(4);
                proof {
                    assert(fields[0][0] == input@[0] && fields[0][1] == input@[1]);
                    assert(fields[1][0] == input@[3] && fields[1][1] == input@[4]);
                }
                if 'a' <= c0 && c0 <= 'z' && '0' <= c1 && c1 <= '9' && 'a' <= c3 && c3 <= 'z'
                    && '0' <= c4 && c4 <= '9' {
                    return true;
                }
                return false;
            }
            proof {
                let fields = spec_split(input@);
                if fields.len() == 2 && fields[0].len() == 2 && fields[1].len() == 2 {
                    assert(fields[0] == input@.subrange(0, boundaries@[0] as int));
                    assert(fields[1] == input@.subrange(
                        boundaries@[0] as int + 1,
                        input@.len() as int,
                    ));
                }
            }
            return false;
        }
        proof {
            assert(spec_split(input@).len() == boundaries@.len() + 1);
        }
        false
    }

    /// The positions of every space in `s`, in order.
    fn space_positions(s: &str) -> (r: Vec<usize>)
        ensures
            r@.len() + 1 == spec_split(s@).len(),
            forall|k: int|
                0 <= k < r@.len() ==> #[trigger] r@[k] < s@.len() && s@[r@[k] as int] == ' ',
            forall|k: int| 0 <= k < r@.len() - 1 ==> #[trigger] r@[k] < r@[k + 1],
            r@.len() == 1 ==> spec_split(s@)[0] == s@.subrange(0, r@[0] as int) && spec_split(
                s@,
            )[1] == s@.subrange(r@[0] as int + 1, s@.len() as int),
    {
        let n = s.unicode_len();
        let mut positions: Vec<usize> = Vec::new();
        let mut i: usize = 0;
        while i < n
            invariant
                n == s@.len(),
                i <= n,
                positions@.len() == crate::fen::spec_split_prefix(s@, i as int).0.len(),
                forall|k: int|
                    0 <= k < positions@.len() ==> #[trigger] positions@[k] < i && s@[positions@[k] as int]
                        == ' ',
                forall|k: int| 0 <= k < positions@.len() - 1 ==> #[trigger] positions@[k]
                    < positions@[k + 1],
                positions@.len() == 1 ==> crate::fen::spec_split_prefix(s@, i as int).0[0]
                    == s@.subrange(0, positions@[0] as int),
                positions@.len() >= 1 ==> crate::fen::spec_split_prefix(s@, i as int).1
                    == s@.subrange(
                    (positions@[positions@.len() - 1] + 1) as int,
                    i as int,
                ),
                positions@.len() == 0 ==> crate::fen::spec_split_prefix(s@, i as int).1
                    == s@.subrange(0, i as int),
            decreases n - i,
        {
            if s.get_char(i) == ' ' {
                positions.push(i);
            }
            proof {
                let stepped = crate::fen::spec_split_prefix(s@, i as int + 1);
                if positions@.len() == 1 {
                    assert(stepped.0.len() <= 1);
                }
                if positions@.len() >= 1 {
                    assert(stepped.1 =~= s@.subrange(
                        (positions@[positions@.len() - 1] + 1) as int,
                        i as int + 1,
                    ));
                } else {
                    assert(stepped.1 =~= s@.subrange(0, i as int + 1));
                }
                if positions@.len() == 1 && stepped.0.len() == 1 {
                    assert(stepped.0[0] == s@.subrange(0, positions@[0] as int));
                }
            }
            i = i + 1;
        }
        positions
    }

    /// Play a move if it is legal: record it in the history, apply it to
    /// the board and hand the turn to the other player. An illegal move
    /// changes nothing and is refused.
    pub fn make_move(&mut self, mv: Moves) -> (r: bool)
        ensures
            r == spec_legal_moves(old(self).spec_board(), old(self).spec_player()).contains(mv),
            r ==> final(self).spec_board() == spec_make_move(old(self).spec_board(), mv),
            r ==> final(self).spec_player() == old(self).spec_player().spec_opponent(),
            r ==> final(self).spec_history().len() == old(self).spec_history().len() + 1,
            r ==> final(self).spec_history().subrange(0, old(self).spec_history().len() as int)
                == old(self).spec_history(),
            r ==> final(self).spec_history().last()@ == crate::util::spec_move_text(
                mv.from,
                mv.to,
                match mv.move_type {
                    MoveType::Promotion { piece } => Some(piece),
                    MoveType::PromotionCapture { piece } => Some(piece),
                    _ => None,
                },
            ),
            !r ==> *final(self) == *old(self),
    {
        let legal_moves = Moves::generate_legal_moves(&self.board, self.current_player);
        let mut found = false;
        let n = legal_moves.len();
        let mut i: usize = 0;
        while i < n
            invariant
                n == legal_moves@.len(),
                i <= n,
                found == exists|k: int| 0 <= k < i && legal_moves@[k] == mv,
            decreases n - i,
        {
            if legal_moves[i] == mv {
                found = true;
            }
            i = i + 1;
        }
        if !found {
            return false;
        }
        proof {
            crate::moves::lemma_legal_moves_elems(self.spec_board(), self.spec_player());
            let k = choose|k: int| 0 <= k < n && legal_moves@[k] == mv;
            assert(crate::moves::spec_is_legal(self.spec_board(), legal_moves@[k], self.spec_player()));
        }
        self.move_history.push(mv.to_algebraic());
        proof {
            assert(self.move_history@.subrange(0, old(self).spec_history().len() as int)
                =~= old(self).spec_history());
        }
        self.board.make_move(&mv);
        self.current_player = self.current_player.opponent();
        true
    }

    /// Whether the game has ended for the player to move: checkmate or
    /// stalemate.
    pub fn is_game_over(&self) -> (r: bool)
        requires
            spec_has_king(self.spec_board(), self.spec_player()),
        ensures
            r == (spec_checkmate(self.spec_board(), self.spec_player()) || spec_stalemate(
                self.spec_board(),
                self.spec_player(),
            )),
    {
        Moves::is_checkmate(&self.board, self.current_player) || Moves::is_stalemate(
            &self.board,
            self.current_player,
        )
    }

    /// The current player's legal moves.
    pub fn get_legal_moves(&self) -> (r: Vec<Moves>)
        ensures
            r@ == spec_legal_moves(self.spec_board(), self.spec_player()),
    {
        Moves::generate_legal_moves(&self.board, self.current_player)
    }

    /// The player to move.
    pub fn get_current_player(&self) -> (r: Color)
        ensures
            r == self.spec_player(),
    {
        self.current_player
    }

    /// The board as it stands.
    pub fn get_board(&self) -> (r: &Board)
        ensures
            r == self.spec_board(),
    {
        &self.board
    }

    /// Play the first non-promoting legal move between two named squares,
    /// if there is one; report why not otherwise.
    pub fn try_move(&mut self, from: &str, to: &str) -> (r: Result<(), String>)
        ensures
            ({
                let f = spec_parse_square(from@);
                let t = spec_parse_square(to@);
                &&& (r is Ok <==> f is Some && t is Some && spec_find_move(
                    spec_legal_moves(old(self).spec_board(), old(self).spec_player()),
                    f->Some_0,
                    t->Some_0,
                    None,
                ) is Some)
                &&& (r is Ok ==> final(self).spec_board() == spec_make_move(
                    old(self).spec_board(),
                    spec_find_move(
                        spec_legal_moves(old(self).spec_board(), old(self).spec_player()),
                        f->Some_0,
                        t->Some_0,
                        None,
                    )->Some_0,
                ) && final(self).spec_player() == old(self).spec_player().spec_opponent())
                &&& (r is Err ==> *final(self) == *old(self))
            }),
    {
        let from_square = match pos_to_u8(from) {
            Some(sq) => sq,
            None => {
                return Err(String::from_str("Invalid from square"));
            },
        };
        let to_square = match pos_to_u8(to) {
            Some(sq) => sq,
            None => {
                return Err(String::from_str("Invalid to square"));
            },
        };
        let legal_moves = Moves::generate_legal_moves(&self.board, self.current_player);
        match Self::find_move(&legal_moves, from_square, to_square, None) {
            Some(mv) => {
                proof {
                    lemma_find_move_contained(legal_moves@, from_square, to_square, None);
                }
                let played = self.make_move(mv);
                assert(played);
                Ok(())
            },
            None => Err(String::from_str("No legal move found between those squares")),
        }
    }

    /// Parse a move in any accepted notation and play it if it is legal;
    /// report why not otherwise.
    pub fn try_move_algebraic(&mut self, move_str: &str) -> (r: Result<(), String>)
        ensures
            ({
                let parsed = spec_parse_move_input(
                    old(self).spec_board(),
                    old(self).spec_player(),
                    move_str@,
                );
                &&& (r is Ok <==> (parsed matches Some(mv) && spec_legal_moves(
                    old(self).spec_board(),
                    old(self).spec_player(),
                ).contains(mv)))
                &&& (r is Ok ==> final(self).spec_board() == spec_make_move(
                    old(self).spec_board(),
                    parsed->Some_0,
                ) && final(self).spec_player() == old(self).spec_player().spec_opponent())
                &&& (r is Err ==> *final(self) == *old(self))
            }),
    {
        match self.parse_move_input(move_str) {
            Some(mv) => {
                if self.make_move(mv) {
                    Ok(())
                } else {
                    Err(String::from_str("Move is not legal"))
                }
            },
            None => Err(String::from_str("Could not parse move")),
        }
    }

    /// The first legal move between the given squares that fits the
    /// promotion choice.
    fn find_move(moves: &Vec<Moves>, from: u8, to: u8, promo: Option<Piece>) -> (r: Option<Moves>)
        ensures
            r == spec_find_move(moves@, from, to, promo),
    {
        let n = moves.len();
        let mut i: usize = 0;
        proof {
            assert(moves@.skip(0) =~= moves@);
        }
        while i < n
            invariant
                n == moves@.len(),
                i <= n,
                spec_find_move(moves@, from, to, promo) == spec_find_move(
                    moves@.skip(i as int),
                    from,
                    to,
                    promo,
                ),
            decreases n - i,
        {
            let mv = moves[i];
            let matches_promo = match promo {
                Some(p) => {
                    match mv.move_type {
                        MoveType::Promotion { piece } => piece == p,
                        MoveType::PromotionCapture { piece } => piece == p,
                        _ => false,
                    }
                },
                None => {
                    match mv.move_type {
                        MoveType::Promotion { .. } | MoveType::PromotionCapture { .. } => false,
                        _ => true,
                    }
                },
            };
            proof {
                assert(moves@.skip(i as int)[0] == moves@[i as int]);
                assert(moves@.skip(i as int).drop_first() =~= moves@.skip(i as int + 1));
            }
            if mv.from == from && mv.to == to && matches_promo {
                return Some(mv);
            }
            i = i + 1;
        }
        None
    }
}

impl Default for ChessGame {
    /// The default game is a new game from the standard starting position.
    fn default() -> (r: Self)
        ensures
            r.spec_board() == spec_start_board(),
            r.spec_player() == Color::White,
            r.spec_history().len() == 0,
    {
        Self::new()
    }
}

} // verus!
