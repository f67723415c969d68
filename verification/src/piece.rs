//! The six piece kinds and the two colors, with their text forms.

use vstd::prelude::*;
use vstd::string::StringExecFns;

verus! {

/// The six chess piece kinds. A piece kind carries no color.
#[derive(Debug, Clone, Copy, PartialEq, Eq, Structural)]
pub enum Piece {
    Pawn,
    Knight,
    Bishop,
    Rook,
    Queen,
    King,
}

/// The two sides.
#[derive(Debug, Clone, Copy, PartialEq, Eq, Structural)]
pub enum Color {
    White,
    Black,
}

impl Color {
    /// The other side.
    pub open spec fn spec_opponent(self) -> Color {
        match self {
            Color::White => Color::Black,
            Color::Black => Color::White,
        }
    }

    /// The other side: White's opponent is Black and Black's is White.
    pub fn opponent(self) -> (r: Color)
        ensures
            r == self.spec_opponent(),
    {
        match self {
            Color::White => Color::Black,
            Color::Black => Color::White,
        }
    }
}

/// The letter that stands for a colored piece in board text: upper case for
/// White, lower case for Black.
pub open spec fn spec_piece_to_char(piece: Piece, color: Color) -> char {
    match (piece, color) {
        (Piece::Pawn, Color::White) => 'P',
        (Piece::Pawn, Color::Black) => 'p',
        (Piece::Knight, Color::White) => 'N',
        (Piece::Knight, Color::Black) => 'n',
        (Piece::Bishop, Color::White) => 'B',
        (Piece::Bishop, Color::Black) => 'b',
        (Piece::Rook, Color::White) => 'R',
        (Piece::Rook, Color::Black) => 'r',
        (Piece::Queen, Color::White) => 'Q',
        (Piece::Queen, Color::Black) => 'q',
        (Piece::King, Color::White) => 'K',
        (Piece::King, Color::Black) => 'k',
    }
}

/// The letter for a colored piece: upper case for White, lower case for Black.
pub fn piece_to_char(piece: Piece, color: Color) -> (r: char)
    ensures
        r == spec_piece_to_char(piece, color),
{
    match (piece, color) {
        (Piece::Pawn, Color::White) => 'P',
        (Piece::Pawn, Color::Black) => 'p',
        (Piece::Knight, Color::White) => 'N',
        (Piece::Knight, Color::Black) => 'n',
        (Piece::Bishop, Color::White) => 'B',
        (Piece::Bishop, Color::Black) => 'b',
        (Piece::Rook, Color::White) => 'R',
        (Piece::Rook, Color::Black) => 'r',
        (Piece::Queen, Color::White) => 'Q',
        (Piece::Queen, Color::Black) => 'q',
        (Piece::King, Color::White) => 'K',
        (Piece::King, Color::Black) => 'k',
    }
}

/// The chess figurine that stands for a colored piece.
pub open spec fn spec_piece_to_sp_char(piece: Piece, color: Color) -> char {
    match (piece, color) {
        (Piece::Pawn, Color::White) => '♙',
        (Piece::Pawn, Color::Black) => '♟',
        (Piece::Knight, Color::White) => '♘',
        (Piece::Knight, Color::Black) => '♞',
        (Piece::Bishop, Color::White) => '♗',
        (Piece::Bishop, Color::Black) => '♝',
        (Piece::Rook, Color::White) => '♖',
        (Piece::Rook, Color::Black) => '♜',
        (Piece::Queen, Color::White) => '♕',
        (Piece::Queen, Color::Black) => '♛',
        (Piece::King, Color::White) => '♔',
        (Piece::King, Color::Black) => '♚',
    }
}

/// The chess figurine for a colored piece, outlined for White and filled
/// for Black.
pub fn piece_to_sp_char(piece: Piece, color: Color) -> (r: char)
    ensures
        r == spec_piece_to_sp_char(piece, color),
{
    match (piece, color) {
        (Piece::Pawn, Color::White) => '♙',
        (Piece::Pawn, Color::Black) => '♟',
        (Piece::Knight, Color::White) => '♘',
        (Piece::Knight, Color::Black) => '♞',
        (Piece::Bishop, Color::White) => '♗',
        (Piece::Bishop, Color::Black) => '♝',
        (Piece::Rook, Color::White) => '♖',
        (Piece::Rook, Color::Black) => '♜',
        (Piece::Queen, Color::White) => '♕',
        (Piece::Queen, Color::Black) => '♛',
        (Piece::King, Color::White) => '♔',
        (Piece::King, Color::Black) => '♚',
    }
}

/// The English name of a colored piece, such as "White Pawn".
pub fn piece_to_sp_string(piece: Piece, color: Color) -> (r: String)
    ensures
        r@ == match (piece, color) {
            (Piece::Pawn, Color::White) => "White Pawn"@,
            (Piece::Pawn, Color::Black) => "Black Pawn"@,
            (Piece::Knight, Color::White) => "White Knight"@,
            (Piece::Knight, Color::Black) => "Black Knight"@,
            (Piece::Bishop, Color::White) => "White Bishop"@,
            (Piece::Bishop, Color::Black) => "Black Bishop"@,
            (Piece::Rook, Color::White) => "White Rook"@,
            (Piece::Rook, Color::Black) => "Black Rook"@,
            (Piece::Queen, Color::White) => "White Queen"@,
            (Piece::Queen, Color::Black) => "Black Queen"@,
            (Piece::King, Color::White) => "White King"@,
            (Piece::King, Color::Black) => "Black King"@,
        },
{
    match (piece, color) {
        (Piece::Pawn, Color::White) => String::from_str("White Pawn"),
        (Piece::Pawn, Color::Black) => String::from_str("Black Pawn"),
        (Piece::Knight, Color::White) => String::from_str("White Knight"),
        (Piece::Knight, Color::Black) => String::from_str("Black Knight"),
        (Piece::Bishop, Color::White) => String::from_str("White Bishop"),
        (Piece::Bishop, Color::Black) => String::from_str("Black Bishop"),
        (Piece::Rook, Color::White) => String::from_str("White Rook"),
        (Piece::Rook, Color::Black) => String::from_str("Black Rook"),
        (Piece::Queen, Color::White) => String::from_str("White Queen"),
        (Piece::Queen, Color::Black) => String::from_str("Black Queen"),
        (Piece::King, Color::White) => String::from_str("White King"),
        (Piece::King, Color::Black) => String::from_str("Black King"),
    }
}

} // verus!
