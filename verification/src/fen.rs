//! Reading and writing positions as FEN text: six space-separated fields
//! holding the piece placement by rank from the top of the board, the side
//! to move, the castling rights, the en-passant target and the two move
//! counters.

use vstd::prelude::*;
use vstd::string::{StrSliceExecFns, StringExecFns};

use crate::board::{
    lemma_set_piece_empty_wf, lemma_wf_same_boards, spec_piece_at, spec_set_piece, spec_wf, Board,
};
use crate::piece::{spec_piece_to_char, Color, Piece};
use crate::util::{
    append_decimal, pos_to_u8, spec_decimal, spec_digit_char, spec_parse_square, spec_square_text,
    u8_to_pos,
};

verus! {

/// The FEN text of the standard starting position.
pub const START_FEN: &'static str = "rnbqkbnr/pppppppp/8/8/8/8/PPPPPPPP/RNBQKBNR w KQkq - 0 1";

/// The fields of `s` split at every space, after reading the first `i`
/// characters: the finished fields, and the field still being read.
pub open spec fn spec_split_prefix(s: Seq<char>, i: int) -> (Seq<Seq<char>>, Seq<char>)
    decreases i,
{
    if i <= 0 {
        (Seq::empty(), Seq::empty())
    } else {
        let (fields, cur) = spec_split_prefix(s, i - 1);
        if s[i - 1] == ' ' {
            (fields.push(cur), Seq::empty())
        } else {
            (fields, cur.push(s[i - 1]))
        }
    }
}

/// The fields of `s`, split at every space; consecutive spaces yield empty
/// fields.
pub open spec fn spec_split(s: Seq<char>) -> Seq<Seq<char>> {
    let (fields, cur) = spec_split_prefix(s, s.len() as int);
    fields.push(cur)
}

/// The colored piece a FEN letter stands for, if any: upper case for White,
/// lower case for Black.
pub open spec fn spec_fen_piece(ch: char) -> Option<(Piece, Color)> {
    if ch == 'P' {
        Some((Piece::Pawn, Color::White))
    } else if ch == 'N' {
        Some((Piece::Knight, Color::White))
    } else if ch == 'B' {
        Some((Piece::Bishop, Color::White))
    } else if ch == 'R' {
        Some((Piece::Rook, Color::White))
    } else if ch == 'Q' {
        Some((Piece::Queen, Color::White))
    } else if ch == 'K' {
        Some((Piece::King, Color::White))
    } else if ch == 'p' {
        Some((Piece::Pawn, Color::Black))
    } else if ch == 'n' {
        Some((Piece::Knight, Color::Black))
    } else if ch == 'b' {
        Some((Piece::Bishop, Color::Black))
    } else if ch == 'r' {
        Some((Piece::Rook, Color::Black))
    } else if ch == 'q' {
        Some((Piece::Queen, Color::Black))
    } else if ch == 'k' {
        Some((Piece::King, Color::Black))
    } else {
        None
    }
}

/// An empty board with the start values of every scalar field, as
/// [`Board::new`] builds it.
pub open spec fn spec_empty_board() -> Board {
    Board {
        white_pawns: 0,
        white_knights: 0,
        white_bishops: 0,
        white_rooks: 0,
        white_queens: 0,
        white_king: 0,
        black_pawns: 0,
        black_knights: 0,
        black_bishops: 0,
        black_rooks: 0,
        black_queens: 0,
        black_king: 0,
        to_move: true,
        halfmove_clock: 0,
        fullmove_number: 1,
        en_passant: None,
        castling_rights: 0xf,
    }
}

/// One step of reading a placement field: a slash moves to the next rank
/// down, a digit skips that many files, a piece letter places the piece on
/// the current square, and anything else — or a row that leaves the board —
/// fails.
pub open spec fn spec_place_step(st: Option<(int, int, Board)>, ch: char) -> Option<
    (int, int, Board),
> {
    match st {
        None => None,
        Some((rank, file, b)) => {
            if ch == '/' {
                if rank > 0 {
                    Some((rank - 1, 0, b))
                } else {
                    None
                }
            } else if '1' <= ch <= '8' {
                let nf = file + (ch as int - '0' as int);
                if nf <= 8 {
                    Some((rank, nf, b))
                } else {
                    None
                }
            } else {
                match spec_fen_piece(ch) {
                    Some((p, c)) => {
                        if file < 8 {
                            Some((rank, file + 1, spec_set_piece(b, p, c, (rank * 8 + file) as u8)))
                        } else {
                            None
                        }
                    },
                    None => None,
                }
            }
        },
    }
}

/// The state after reading the first `i` characters of a placement field,
/// starting from the top-left square of an empty board.
pub open spec fn spec_place_prefix(s: Seq<char>, i: int) -> Option<(int, int, Board)>
    decreases i,
{
    if i <= 0 {
        Some((7, 0, spec_empty_board()))
    } else {
        spec_place_step(spec_place_prefix(s, i - 1), s[i - 1])
    }
}

/// Once a placement field fails to read, reading further never mends it.
proof fn lemma_place_none_sticky(s: Seq<char>, i: int, j: int)
    requires
        0 <= i <= j,
        spec_place_prefix(s, i) is None,
    ensures
        spec_place_prefix(s, j) is None,
    decreases j - i,
{
    if i < j {
        lemma_place_none_sticky(s, i, j - 1);
    }
}

/// The board a whole placement field describes, if it reads cleanly.
pub open spec fn spec_parse_placement(s: Seq<char>) -> Option<Board> {
    match spec_place_prefix(s, s.len() as int) {
        Some((rank, file, b)) => Some(b),
        None => None,
    }
}

/// The castling rights a FEN rights field sets: each of the four letters
/// sets its flag; every other character, the customary dash included, sets
/// nothing.
pub open spec fn spec_castling_prefix(s: Seq<char>, i: int) -> u8
    decreases i,
{
    if i <= 0 {
        0
    } else {
        let prev = spec_castling_prefix(s, i - 1);
        if s[i - 1] == 'K' {
            prev | 0x1
        } else if s[i - 1] == 'Q' {
            prev | 0x2
        } else if s[i - 1] == 'k' {
            prev | 0x4
        } else if s[i - 1] == 'q' {
            prev | 0x8
        } else {
            prev
        }
    }
}

/// The value of a decimal counter field read up to `i` characters, within
/// the sixteen-bit range; a non-digit or an overflow fails.
pub open spec fn spec_u16_prefix(s: Seq<char>, i: int) -> Option<int>
    decreases i,
{
    if i <= 0 {
        Some(0)
    } else {
        match spec_u16_prefix(s, i - 1) {
            None => None,
            Some(v) => {
                if '0' <= s[i - 1] <= '9' {
                    let nv = v * 10 + (s[i - 1] as int - '0' as int);
                    if nv <= 0xffff {
                        Some(nv)
                    } else {
                        None
                    }
                } else {
                    None
                }
            },
        }
    }
}

/// Once a counter field fails to read, reading further never mends it.
proof fn lemma_u16_none_sticky(s: Seq<char>, i: int, j: int)
    requires
        0 <= i <= j,
        spec_u16_prefix(s, i) is None,
    ensures
        spec_u16_prefix(s, j) is None,
    decreases j - i,
{
    if i < j {
        lemma_u16_none_sticky(s, i, j - 1);
    }
}

/// The value of a whole decimal counter field: at least one digit, no other
/// characters, within the sixteen-bit range.
pub open spec fn spec_parse_u16(s: Seq<char>) -> Option<int> {
    if s.len() == 0 {
        None
    } else {
        spec_u16_prefix(s, s.len() as int)
    }
}

/// The board a whole FEN text describes, if it reads cleanly: exactly six
/// space-separated fields — placement, side to move, castling rights,
/// en-passant target and the two counters.
pub open spec fn spec_parse_fen(s: Seq<char>) -> Option<Board> {
    let fields = spec_split(s);
    if fields.len() != 6 {
        None
    } else {
        match spec_parse_placement(fields[0]) {
            None => None,
            Some(placed) => {
                let to_move = if fields[1] == seq!['w'] {
                    Some(true)
                } else if fields[1] == seq!['b'] {
                    Some(false)
                } else {
                    None
                };
                match to_move {
                    None => None,
                    Some(white_to_move) => {
                        let rights = spec_castling_prefix(fields[2], fields[2].len() as int);
                        let ep = if fields[3] == seq!['-'] {
                            None
                        } else {
                            spec_parse_square(fields[3])
                        };
                        match (spec_parse_u16(fields[4]), spec_parse_u16(fields[5])) {
                            (Some(half), Some(full)) => Some(
                                Board {
                                    to_move: white_to_move,
                                    castling_rights: rights,
                                    en_passant: ep,
                                    halfmove_clock: half as u16,
                                    fullmove_number: full as u16,
                                    ..placed
                                },
                            ),
                            _ => None,
                        }
                    },
                }
            },
        }
    }
}

/// Read the placement field `s[start..end]`, if it reads cleanly, into a
/// board whose scalar fields keep their start values. The board read is
/// well-formed: each square is filled at most once.
fn parse_placement(s: &str, start: usize, end: usize) -> (r: Option<Board>)
    requires
        start <= end <= s@.len(),
    ensures
        r == spec_parse_placement(s@.subrange(start as int, end as int)),
        r matches Some(b) ==> spec_wf(b),
{
    let ghost sub = s@.subrange(start as int, end as int);
    let mut board = Board::new();
    assert(board == spec_empty_board());
    proof {
        assert forall|p: Piece, c: Color, sq: u8|
            sq < 64 implies !crate::board::spec_has_piece(board, p, c, sq) by {
            crate::board::lemma_bb_zero_or(0, 0, sq);
        }
    }
    let mut rank: u8 = 7;
    let mut file: u8 = 0;
    let mut j = start;
    while j < end
        invariant
            start <= j <= end <= s@.len(),
            sub == s@.subrange(start as int, end as int),
            rank < 8,
            file <= 8,
            spec_place_prefix(sub, j - start) == Some((rank as int, file as int, board)),
            spec_wf(board),
            forall|p: Piece, c: Color, sq: u8|
                sq < 64 && #[trigger] crate::board::spec_has_piece(board, p, c, sq) ==> (sq / 8
                    > rank || (sq / 8 == rank && sq % 8 < file)),
        decreases end - j,
    {
        let c = s.get_char(j);
        assert(sub[j - start] == s@[j as int]);
        if c == '/' {
            if rank > 0 {
                rank = rank - 1;
                file = 0;
            } else {
                proof {
                    lemma_place_none_sticky(sub, j - start + 1, sub.len() as int);
                }
                return None;
            }
        } else if '1' <= c && c <= '8' {
            let nf = file + (c as u8 - '0' as u8);
            if nf <= 8 {
                file = nf;
            } else {
                proof {
                    lemma_place_none_sticky(sub, j - start + 1, sub.len() as int);
                }
                return None;
            }
        } else {
            match fen_piece(c) {
                Some((p, cl)) => {
                    if file < 8 {
                        let sq = rank * 8 + file;
                        proof {
                            assert(sq / 8 == rank && sq % 8 == file) by (nonlinear_arith)
                                requires
                                    rank < 8,
                                    file < 8,
                                    sq == rank * 8 + file,
                            ;
                            assert forall|p2: Piece, c2: Color|
                                !crate::board::spec_has_piece(board, p2, c2, sq) by {
                                assert(sq < 64);
                            }
                            crate::board::lemma_no_membership_empty(board, sq);
                            lemma_set_piece_empty_wf(board, p, cl, sq);
                        }
                        let ghost pre = board;
                        board.set_piece(p, cl, sq);
                        proof {
                            assert forall|p2: Piece, c2: Color, sq2: u8|
                                sq2 < 64 && #[trigger] crate::board::spec_has_piece(
                                    board,
                                    p2,
                                    c2,
                                    sq2,
                                ) implies (sq2 / 8 > rank || (sq2 / 8 == rank && sq2 % 8 < file
                                + 1)) by {
                                crate::board::lemma_set_piece_has(pre, p, cl, sq, p2, c2, sq2);
                            }
                        }
                        file = file + 1;
                    } else {
                        proof {
                            lemma_place_none_sticky(sub, j - start + 1, sub.len() as int);
                        }
                        return None;
                    }
                },
                None => {
                    proof {
                        lemma_place_none_sticky(sub, j - start + 1, sub.len() as int);
                    }
                    return None;
                },
            }
        }
        j = j + 1;
    }
    Some(board)
}

/// The colored piece a FEN letter stands for, if any.
fn fen_piece(ch: char) -> (r: Option<(Piece, Color)>)
    ensures
        r == spec_fen_piece(ch),
{
    match ch {
        'P' => Some((Piece::Pawn, Color::White)),
        'N' => Some((Piece::Knight, Color::White)),
        'B' => Some((Piece::Bishop, Color::White)),
        'R' => Some((Piece::Rook, Color::White)),
        'Q' => Some((Piece::Queen, Color::White)),
        'K' => Some((Piece::King, Color::White)),
        'p' => Some((Piece::Pawn, Color::Black)),
        'n' => Some((Piece::Knight, Color::Black)),
        'b' => Some((Piece::Bishop, Color::Black)),
        'r' => Some((Piece::Rook, Color::Black)),
        'q' => Some((Piece::Queen, Color::Black)),
        'k' => Some((Piece::King, Color::Black)),
        _ => None,
    }
}

/// Read the decimal counter field `s[start..end]`.
fn parse_u16_range(s: &str, start: usize, end: usize) -> (r: Option<u16>)
    requires
        start <= end <= s@.len(),
    ensures
        ({
            let v = spec_parse_u16(s@.subrange(start as int, end as int));
            &&& (r is Some <==> v is Some)
            &&& (r matches Some(x) ==> x as int == v->Some_0)
        }),
{
    let ghost sub = s@.subrange(start as int, end as int);
    if start == end {
        return None;
    }
    let mut value: u16 = 0;
    let mut j = start;
    while j < end
        invariant
            start <= j <= end <= s@.len(),
            sub == s@.subrange(start as int, end as int),
            spec_u16_prefix(sub, j - start) == Some(value as int),
        decreases end - j,
    {
        let c = s.get_char(j);
        assert(sub[j - start] == s@[j as int]);
        if '0' <= c && c <= '9' {
            let d = c as u32 - '0' as u32;
            let nv = value as u32 * 10 + d;
            if nv <= 0xffff {
                value = nv as u16;
            } else {
                proof {
                    lemma_u16_none_sticky(sub, j - start + 1, sub.len() as int);
                }
                return None;
            }
        } else {
            proof {
                lemma_u16_none_sticky(sub, j - start + 1, sub.len() as int);
            }
            return None;
        }
        j = j + 1;
    }
    Some(value)
}

/// Read a board from FEN text: six space-separated fields — placement from
/// the top rank down, side to move, castling rights, en-passant target,
/// halfmove clock and fullmove number. A text that does not read cleanly is
/// rejected with a message; a board read successfully is well-formed, each
/// square holding at most one piece.
pub fn parse_fen(fen: &str) -> (r: Result<Board, String>)
    ensures
        r is Ok <==> spec_parse_fen(fen@) is Some,
        r matches Ok(b) ==> Some(b) == spec_parse_fen(fen@) && spec_wf(b),
{
    let n = fen.unicode_len();

    // Field boundaries: split at every space.
    let mut bounds: Vec<(usize, usize)> = Vec::new();
    let mut cur_start: usize = 0;
    let mut i: usize = 0;
    while i < n
        invariant
            n == fen@.len(),
            cur_start <= i <= n,
            forall|k: int| 0 <= k < bounds@.len() ==> (#[trigger] bounds@[k]).0 <= bounds@[k].1 <= n,
            bounds@.map_values(|b: (usize, usize)| fen@.subrange(b.0 as int, b.1 as int))
                == spec_split_prefix(fen@, i as int).0,
            fen@.subrange(cur_start as int, i as int) == spec_split_prefix(fen@, i as int).1,
        decreases n - i,
    {
        if fen.get_char(i) == ' ' {
            bounds.push((cur_start, i));
            cur_start = i + 1;
        }
        proof {
            let stepped = spec_split_prefix(fen@, i as int + 1);
            assert(bounds@.map_values(|b: (usize, usize)| fen@.subrange(b.0 as int, b.1 as int))
                =~= stepped.0);
            assert(fen@.subrange(cur_start as int, i as int + 1) =~= stepped.1);
        }
        i = i + 1;
    }
    bounds.push((cur_start, n));
    proof {
        assert(bounds@.map_values(|b: (usize, usize)| fen@.subrange(b.0 as int, b.1 as int))
            =~= spec_split(fen@));
    }
    let ghost fields = spec_split(fen@);

    if bounds.len() != 6 {
        return Err(String::from_str("Invalid FEN format"));
    }

    // Placement.
    let (p_start, p_end) = (bounds[0].0, bounds[0].1);
    assert(fields[0] == fen@.subrange(p_start as int, p_end as int));
    let placed = match parse_placement(fen, p_start, p_end) {
        Some(b) => b,
        None => {
            return Err(String::from_str("Invalid piece placement in FEN"));
        },
    };

    // Side to move.
    let (m_start, m_end) = (bounds[1].0, bounds[1].1);
    assert(fields[1] == fen@.subrange(m_start as int, m_end as int));
    let to_move = if m_end - m_start == 1 && fen.get_char(m_start) == 'w' {
        proof {
            assert(fields[1] =~= seq!['w']);
        }
        true
    } else if m_end - m_start == 1 && fen.get_char(m_start) == 'b' {
        proof {
            assert(fields[1] =~= seq!['b']);
            assert(fields[1] != seq!['w']) by {
                if fields[1] == seq!['w'] {
                    assert(fields[1][0] == 'w');
                }
            }
        }
        false
    } else {
        proof {
            if fields[1] == seq!['w'] || fields[1] == seq!['b'] {
                assert(fields[1].len() == 1);
                assert(fen@[m_start as int] == fields[1][0]);
            }
        }
        return Err(String::from_str("Invalid active color in FEN"));
    };

    // Castling rights.
    let (c_start, c_end) = (bounds[2].0, bounds[2].1);
    assert(fields[2] == fen@.subrange(c_start as int, c_end as int));
    let mut rights: u8 = 0;
    let mut j = c_start;
    while j < c_end
        invariant
            c_start <= j <= c_end <= fen@.len(),
            fields[2] == fen@.subrange(c_start as int, c_end as int),
            rights == spec_castling_prefix(fields[2], j - c_start),
        decreases c_end - j,
    {
        assert(fields[2][j - c_start] == fen@[j as int]);
        match fen.get_char(j) {
            'K' => rights = rights | 0x1,
            'Q' => rights = rights | 0x2,
            'k' => rights = rights | 0x4,
            'q' => rights = rights | 0x8,
            _ => {},
        }
        j = j + 1;
    }

    // En-passant target.
    let (e_start, e_end) = (bounds[3].0, bounds[3].1);
    assert(fields[3] == fen@.subrange(e_start as int, e_end as int));
    let en_passant = if e_end - e_start == 1 && fen.get_char(e_start) == '-' {
        proof {
            assert(fields[3] =~= seq!['-']);
        }
        None
    } else {
        proof {
            if fields[3] == seq!['-'] {
                assert(fields[3].len() == 1);
                assert(fen@[e_start as int] == fields[3][0]);
            }
        }
        let ep_text = fen.substring_char(e_start, e_end);
        pos_to_u8(ep_text)
    };

    // Clocks.
    let (h_start, h_end) = (bounds[4].0, bounds[4].1);
    assert(fields[4] == fen@.subrange(h_start as int, h_end as int));
    let halfmove_clock = match parse_u16_range(fen, h_start, h_end) {
        Some(v) => v,
        None => {
            return Err(String::from_str("Invalid halfmove clock"));
        },
    };
    let (f_start, f_end) = (bounds[5].0, bounds[5].1);
    assert(fields[5] == fen@.subrange(f_start as int, f_end as int));
    let fullmove_number = match parse_u16_range(fen, f_start, f_end) {
        Some(v) => v,
        None => {
            return Err(String::from_str("Invalid fullmove number"));
        },
    };

    let mut board = placed;
    board.to_move = to_move;
    board.castling_rights = rights;
    board.en_passant = en_passant;
    board.halfmove_clock = halfmove_clock;
    board.fullmove_number = fullmove_number;
    proof {
        lemma_wf_same_boards(placed, board);
    }
    Ok(board)
}

/// The text of one placement row read up to file `i`: the characters written
/// so far and the run of empty squares not yet written out.
pub open spec fn spec_row_state(b: Board, rank: int, i: int) -> (Seq<char>, int)
    decreases i,
{
    if i <= 0 {
        (Seq::empty(), 0)
    } else {
        let (text, run) = spec_row_state(b, rank, i - 1);
        match spec_piece_at(b, (rank * 8 + (i - 1)) as u8) {
            Some((p, c)) => (
                (text + if run > 0 {
                    seq![spec_digit_char(run as u8)]
                } else {
                    Seq::empty()
                }).push(spec_piece_to_char(p, c)),
                0,
            ),
            None => (text, run + 1),
        }
    }
}

/// An empty-square run never outgrows the files read.
proof fn lemma_row_state_run(b: Board, rank: int, i: int)
    requires
        0 <= i,
    ensures
        0 <= spec_row_state(b, rank, i).1 <= i,
    decreases i,
{
    if i > 0 {
        lemma_row_state_run(b, rank, i - 1);
    }
}

/// The text of one placement row: pieces by their letters, runs of empty
/// squares by their lengths.
pub open spec fn spec_row_text(b: Board, rank: int) -> Seq<char> {
    let (text, run) = spec_row_state(b, rank, 8);
    text + if run > 0 {
        seq![spec_digit_char(run as u8)]
    } else {
        Seq::empty()
    }
}

/// The text of the top `k` placement rows, slash-separated, highest rank
/// first.
pub open spec fn spec_rows_prefix(b: Board, k: int) -> Seq<char>
    decreases k,
{
    if k <= 0 {
        Seq::empty()
    } else {
        spec_rows_prefix(b, k - 1) + (if k > 1 {
            seq!['/']
        } else {
            Seq::empty()
        }) + spec_row_text(b, 8 - k)
    }
}

/// The whole placement field: the eight rows from rank 8 down to rank 1.
pub open spec fn spec_placement_text(b: Board) -> Seq<char> {
    spec_rows_prefix(b, 8)
}

/// The castling-rights field: the flags' letters in the order K, Q, k, q,
/// or a dash when no rights value is left at all.
pub open spec fn spec_castling_text(r: u8) -> Seq<char> {
    (if r & 0x1 != 0 {
        seq!['K']
    } else {
        Seq::empty()
    }) + (if r & 0x2 != 0 {
        seq!['Q']
    } else {
        Seq::empty()
    }) + (if r & 0x4 != 0 {
        seq!['k']
    } else {
        Seq::empty()
    }) + (if r & 0x8 != 0 {
        seq!['q']
    } else {
        Seq::empty()
    }) + (if r == 0 {
        seq!['-']
    } else {
        Seq::empty()
    })
}

/// The en-passant field: the target square's name, or a dash.
pub open spec fn spec_ep_text(ep: Option<u8>) -> Seq<char> {
    match ep {
        Some(e) => spec_square_text(e),
        None => seq!['-'],
    }
}

/// The whole FEN text of a board: placement, side to move, castling rights,
/// en-passant target, halfmove clock and fullmove number, space-separated.
pub open spec fn spec_to_fen(b: Board) -> Seq<char> {
    spec_placement_text(b) + seq![' '] + (if b.to_move {
        seq!['w']
    } else {
        seq!['b']
    }) + seq![' '] + spec_castling_text(b.castling_rights) + seq![' '] + spec_ep_text(b.en_passant)
        + seq![' '] + spec_decimal(b.halfmove_clock as int) + seq![' '] + spec_decimal(
        b.fullmove_number as int,
    )
}

/// Append the FEN letter of a colored piece.
fn append_piece_char(s: &mut String, piece: Piece, color: Color)
    ensures
        final(s)@ == old(s)@ + seq![spec_piece_to_char(piece, color)],
{
    proof {
        reveal_strlit("P");
        reveal_strlit("N");
        reveal_strlit("B");
        reveal_strlit("R");
        reveal_strlit("Q");
        reveal_strlit("K");
        reveal_strlit("p");
        reveal_strlit("n");
        reveal_strlit("b");
        reveal_strlit("r");
        reveal_strlit("q");
        reveal_strlit("k");
    }
    match (piece, color) {
        (Piece::Pawn, Color::White) => s.append("P"),
        (Piece::Knight, Color::White) => s.append("N"),
        (Piece::Bishop, Color::White) => s.append("B"),
        (Piece::Rook, Color::White) => s.append("R"),
        (Piece::Queen, Color::White) => s.append("Q"),
        (Piece::King, Color::White) => s.append("K"),
        (Piece::Pawn, Color::Black) => s.append("p"),
        (Piece::Knight, Color::Black) => s.append("n"),
        (Piece::Bishop, Color::Black) => s.append("b"),
        (Piece::Rook, Color::Black) => s.append("r"),
        (Piece::Queen, Color::Black) => s.append("q"),
        (Piece::King, Color::Black) => s.append("k"),
    }
    assert(s@ =~= old(s)@ + seq![spec_piece_to_char(piece, color)]);
}

/// Append the text of one placement row.
fn append_row(s: &mut String, board: &Board, rank: u8)
    requires
        rank < 8,
    ensures
        final(s)@ == old(s)@ + spec_row_text(*board, rank as int),
{
    let mut run: u8 = 0;
    let mut file: u8 = 0;
    while file < 8
        invariant
            rank < 8,
            file <= 8,
            run <= file,
            (s@, run as int) == {
                let (t, r) = spec_row_state(*board, rank as int, file as int);
                (old(s)@ + t, r)
            },
        decreases 8 - file,
    {
        let sq = rank * 8 + file;
        proof {
            lemma_row_state_run(*board, rank as int, file as int + 1);
        }
        match board.get_piece_at(sq) {
            Some((p, c)) => {
                if run > 0 {
                    crate::util::append_digit_char(s, run);
                }
                append_piece_char(s, p, c);
                run = 0;
            },
            None => {
                run = run + 1;
            },
        }
        assert(s@ =~= old(s)@ + spec_row_state(*board, rank as int, file as int + 1).0);
        file = file + 1;
    }
    if run > 0 {
        crate::util::append_digit_char(s, run);
    }
    assert(s@ =~= old(s)@ + spec_row_text(*board, rank as int));
}

/// Append the whole placement field: eight rows, highest rank first,
/// slash-separated.
fn append_placement(s: &mut String, board: &Board)
    ensures
        final(s)@ == old(s)@ + spec_placement_text(*board),
{
    proof {
        reveal_strlit("/");
    }
    assert("/"@ =~= seq!['/']);
    let mut k: u8 = 0;
    while k < 8
        invariant
            k <= 8,
            "/"@ == seq!['/'],
            s@ == old(s)@ + spec_rows_prefix(*board, k as int),
        decreases 8 - k,
    {
        if k > 0 {
            s.append("/");
        }
        append_row(s, board, 7 - k);
        assert(s@ =~= old(s)@ + spec_rows_prefix(*board, k as int + 1));
        k = k + 1;
    }
}

/// Write a board as FEN text: placement from the top rank down, side to
/// move, castling rights, en-passant target, halfmove clock and fullmove
/// number, space-separated.
#[verifier::spinoff_prover]
#[verifier::rlimit(100)]
pub fn to_fen(board: &Board) -> (r: String)
    requires
        board.en_passant matches Some(e) ==> e < 64,
    ensures
        r@ == spec_to_fen(*board),
{
    proof {
        reveal_strlit(" ");
        reveal_strlit("/");
        reveal_strlit("w");
        reveal_strlit("b");
        reveal_strlit("K");
        reveal_strlit("Q");
        reveal_strlit("k");
        reveal_strlit("q");
        reveal_strlit("-");
    }
    let mut fen = String::new();
    append_placement(&mut fen, board);
    let ghost after_rows = fen@;

    // Side to move.
    fen.append(" ");
    if board.to_move {
        fen.append("w");
    } else {
        fen.append("b");
    }

    // Castling rights.
    fen.append(" ");
    let ghost before_rights = fen@;
    if board.castling_rights & 0x1 != 0 {
        fen.append("K");
    }
    if board.castling_rights & 0x2 != 0 {
        fen.append("Q");
    }
    if board.castling_rights & 0x4 != 0 {
        fen.append("k");
    }
    if board.castling_rights & 0x8 != 0 {
        fen.append("q");
    }
    if board.castling_rights == 0 {
        fen.append("-");
    }
    assert(fen@ =~= before_rights + spec_castling_text(board.castling_rights));

    // En-passant target.
    fen.append(" ");
    let ghost before_ep = fen@;
    match board.en_passant {
        None => fen.append("-"),
        Some(square) => {
            let text = u8_to_pos(square);
            fen.append(text.as_str());
        },
    }
    assert(fen@ =~= before_ep + spec_ep_text(board.en_passant));

    // Clocks.
    fen.append(" ");
    append_decimal(&mut fen, board.halfmove_clock);
    fen.append(" ");
    append_decimal(&mut fen, board.fullmove_number);

    assert(fen@ =~= spec_to_fen(*board));
    fen
}

} // verus!
