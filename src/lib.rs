//! A chess rules engine: board position, move generation and legality
//! (sliding and stepping pieces, pawn rules, castling, check safety),
//! check, checkmate and stalemate detection, and draws by insufficient
//! material.

pub mod ai;
pub mod aux_func;
pub mod board;
pub mod game;
pub mod laws;
pub mod piece;
pub mod position;

pub use ai::evaluate;
pub use aux_func::{int_to_letter, letter_to_int};
pub use board::{Board, GameStatus};
pub use game::{init_pieces, Game};
pub use piece::{Piece, PieceKind};
pub use position::Position;
