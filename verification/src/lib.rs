pub mod board;
pub mod eval;
pub mod fen;
pub mod game;
pub mod moves;
pub mod piece;
pub mod util;

pub use board::Board;
pub use game::ChessGame;
pub use moves::Moves;
pub use piece::{Color, Piece};
