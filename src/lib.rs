//! Scoring and lifecycle rules of a daily five-letter word-guessing game.
//!
//! The library decides everything a game server has to decide: which word a
//! new game gets, how a guess is scored letter by letter, when a guess is
//! refused, when a game is won or over, and how a stored game is read back.
//! Persistence and transport are left to the caller.
pub mod text;
pub mod words;
pub mod types;
pub mod evaluate;
pub mod lifecycle;
pub mod record;
