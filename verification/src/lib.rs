//! First-move statistics over a corpus of chess games.
//!
//! A caller names a target position. Every game of the corpus is replayed from
//! the standard starting position; once a game reaches the target, the library
//! records for each piece of the target where that piece moved first, whether
//! it was captured where it stood, or that it never moved again. The counts
//! accumulate over the whole corpus and are finally laid out as an ordered
//! report.
//!
//! The rules of chess come from the `shakmaty` crate and the decoding of
//! header values from `pgn-reader`. The modules [`chess`] and [`pgn`] hold what
//! is taken on trust of them, the module [`text`] what is taken on trust of
//! two functions of the standard library. Everything else is verified.

pub mod chess;
pub mod error;
pub mod event;
pub mod laws;
pub mod page;
pub mod pgn;
pub mod piece;
pub mod position;
pub mod replay;
pub mod report;
pub mod square;
pub mod square_set;
pub mod state;
pub mod table;
pub mod tally;
pub mod text;

pub use page::{arrows, chessground, style, urlenc, Assets};
