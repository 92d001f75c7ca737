//! A chess position engine: it holds a board position, enumerates the legal
//! moves of the side to move, detects check and checkmate, and produces
//! successor positions. Positions are immutable values; every move application
//! returns a fresh position. Construction and printing go through FEN and
//! algebraic square notation.

#![verifier::loop_isolation(false)]

pub mod piece;
pub mod square;
pub mod rules;
pub mod board;
pub mod laws;
pub mod fen;
