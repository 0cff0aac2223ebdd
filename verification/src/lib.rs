//! A chess rules engine: it keeps a legal position, reads moves in notation,
//! plays the legal ones, and tells check, checkmate, stalemate and a draw by
//! repetition.
//!
//! A position is held twice, as a grid of square contents and as the lists of
//! the live pieces of each side; every operation that changes it keeps the two
//! in agreement. Whether a move leaves the mover's own king attacked is found
//! by trying the move on the position and taking it back exactly.
pub mod agreement;
pub mod audit;
pub mod board;
pub mod castling;
pub mod game;
pub mod laws;
pub mod moves;
pub mod parser;
pub mod piece_types;
pub mod pieces;
pub mod position;
pub mod reach;
pub mod rules;
pub mod session;
pub mod setup;
pub mod text;
