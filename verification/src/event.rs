//! What a resolved move does on the board, as far as attribution needs it.

use crate::square::Square;
use vstd::prelude::*;

verus! {

/// A resolved move, by kind.
///
/// A castling move names the squares that king and rook leave. A "put"
/// places a new piece on the board, as composed positions do.
#[derive(Clone, Copy, Debug, PartialEq, Eq, Structural)]
pub enum MoveEvent {
    Normal { from: Square, to: Square },
    EnPassant { from: Square, to: Square },
    Castle { king: Square, rook: Square },
    Put { to: Square },
}

} // verus!
