//! What two positions are compared by: placement, side to move and castling
//! rights.

use crate::chess::{castling_rights, castling_rooks, occupant, piece_at, white_moves, white_to_move};
use crate::piece::{piece_of, Color, Piece, Role};
use crate::square::Square;
use crate::square_set::{squares_of, SquareSet};
use shakmaty::Chess;
use vstd::prelude::*;

verus! {

/// The three things that make two positions the same for matching: the piece
/// or gap on each of the 64 squares, the side to move, and the rooks that
/// may still castle. Move counters and en-passant history are no part of it.
#[verifier::ext_equal]
pub struct KeyView {
    pub placement: Seq<Option<Piece>>,
    pub white_to_move: bool,
    pub castling: Set<int>,
}

/// The key of a position.
pub open spec fn key_of(pos: Chess) -> KeyView {
    KeyView {
        placement: Seq::new(64, |square: int| piece_of(occupant(pos, square))),
        white_to_move: white_moves(pos),
        castling: squares_of(castling_rooks(pos)),
    }
}

/// The squares on which a key has a piece.
pub open spec fn occupied(key: KeyView) -> Set<int> {
    Set::new(|square: int| 0 <= square < 64 && key.placement[square] is Some)
}

/// The key of a position, held as plain values.
pub struct PositionKey {
    placement: Vec<Option<Piece>>,
    white_to_move: bool,
    castling: SquareSet,
}

impl View for PositionKey {
    type V = KeyView;

    closed spec fn view(&self) -> KeyView {
        KeyView {
            placement: self.placement@,
            white_to_move: self.white_to_move,
            castling: self.castling@,
        }
    }
}

/// The piece that stands on a square of a position.
fn piece_on(pos: &Chess, square: Square) -> (r: Option<Piece>)
    ensures
        r == piece_of(occupant(*pos, square@)),
{
    match piece_at(pos, square) {
        Some((white, number)) => Some(
            Piece { color: Color::from_white(white), role: Role::from_number(number).unwrap() },
        ),
        None => None,
    }
}

impl PositionKey {
    /// The key holds one entry for each square.
    pub closed spec fn wf(&self) -> bool {
        self.placement.len() == 64
    }

    /// Reads the key of a position.
    pub fn of(pos: &Chess) -> (r: PositionKey)
        ensures
            r.wf(),
            r@ == key_of(*pos),
    {
        let mut placement: Vec<Option<Piece>> = Vec::new();
        let mut i: u8 = 0;
        while i < 64
            invariant
                i <= 64,
                placement.len() == i,
                forall|j: int| 0 <= j < i ==> placement[j] == piece_of(occupant(*pos, j)),
            decreases 64 - i,
        {
            let square = Square::new(i).unwrap();
            placement.push(piece_on(pos, square));
            i = i + 1;
        }
        let r = PositionKey {
            placement,
            white_to_move: white_to_move(pos),
            castling: SquareSet::from_bits(castling_rights(pos)),
        };
        assert(r@ =~= key_of(*pos));
        r
    }

    /// Whether the position has this key: the same piece or gap on every
    /// square, the same side to move and the same castling rights.
    pub fn matches(&self, pos: &Chess) -> (r: bool)
        requires
            self.wf(),
        ensures
            r == (self@ == key_of(*pos)),
    {
        if self.white_to_move != white_to_move(pos) {
            return false;
        }
        let rights = SquareSet::from_bits(castling_rights(pos));
        if !self.castling.same(&rights) {
            return false;
        }
        let mut i: u8 = 0;
        while i < 64
            invariant
                i <= 64,
                self.wf(),
                forall|j: int| 0 <= j < i ==> self.placement[j] == piece_of(occupant(*pos, j)),
            decreases 64 - i,
        {
            let square = Square::new(i).unwrap();
            let here = piece_on(pos, square);
            if !same_piece(self.placement[i as usize], here) {
                assert(self@.placement[i as int] != key_of(*pos).placement[i as int]);
                return false;
            }
            i = i + 1;
        }
        assert(self@ =~= key_of(*pos));
        true
    }

    /// The squares on which the key has a piece.
    pub fn occupied(&self) -> (r: SquareSet)
        requires
            self.wf(),
        ensures
            r@ == occupied(self@),
    {
        let mut squares = SquareSet::empty();
        let mut i: u8 = 0;
        while i < 64
            invariant
                i <= 64,
                self.wf(),
                forall|square: int|
                    squares@.contains(square) <==> 0 <= square < i
                        && self.placement[square] is Some,
            decreases 64 - i,
        {
            if self.placement[i as usize].is_some() {
                squares.insert(Square::new(i).unwrap());
            }
            i = i + 1;
        }
        assert(squares@ =~= occupied(self@));
        squares
    }

    /// The piece on a square, if there is one.
    pub fn piece_at(&self, square: Square) -> (r: Option<Piece>)
        requires
            self.wf(),
        ensures
            r == self@.placement[square@],
    {
        self.placement[square.index() as usize]
    }

    /// Whether White is to move.
    pub fn white_to_move(&self) -> (r: bool)
        ensures
            r == self@.white_to_move,
    {
        self.white_to_move
    }

    /// The rooks that may still castle, by their squares.
    pub fn castling_rights(&self) -> (r: &SquareSet)
        ensures
            r@ == self@.castling,
    {
        &self.castling
    }
}

/// Whether two squares hold the same: both empty, or pieces of the same
/// colour and role.
fn same_piece(a: Option<Piece>, b: Option<Piece>) -> (r: bool)
    ensures
        r == (a == b),
{
    match (a, b) {
        (Some(p), Some(q)) => p == q,
        (None, None) => true,
        _ => false,
    }
}

} // verus!
