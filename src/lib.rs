//! Decoding of chess positions from their six-field text encoding, and a
//! plain-text grid view of the decoded position.
pub mod board;
pub mod error;
pub mod laws;
pub mod piece;
pub mod text;
