//! A chess rules engine: a bitboard-backed board model with a legal-move
//! generator, a branching move history supporting undo and redo, FEN
//! serialization, and the line-oriented protocol layer used to drive an
//! external search engine.
//!
//! Board state is mutated only through [`board::Board::apply_move`] and
//! [`board::Board::undo_move`]; every applied move records enough metadata to
//! be inverted exactly.

pub mod bitboard;
pub mod board;
pub mod classification;
pub mod fen;
pub mod move_history;
pub mod moves;
pub mod piece;
pub mod piece_move;
pub mod square;
pub mod uci;
pub mod uci_info;
