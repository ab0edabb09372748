//! The rules of chess, which the library has from the `shakmaty` crate.
//!
//! A position of a game is a value of `shakmaty`'s `Chess`. Nothing here is
//! proved: each function below hands one function of `shakmaty` its
//! arguments and states of the result what the rest of the library relies
//! on. What a position holds and what the rules make of it is given a name,
//! so that the contracts of the library can speak of it.

use crate::event::MoveEvent;
use crate::square::Square;
use shakmaty::fen::Fen;
use shakmaty::san::SanPlus;
use shakmaty::{Chess, Move, Position, Setup};
use vstd::prelude::*;

verus! {

/// `shakmaty::Chess`: a legal position of standard chess.
#[verifier::external_type_specification]
#[verifier::external_body]
pub struct ExChess(Chess);

/// `shakmaty::san::SanPlus`: a move in standard algebraic notation, with the
/// mark for check or mate that may follow it.
#[verifier::external_type_specification]
#[verifier::external_body]
pub struct ExSanPlus(SanPlus);

/// `shakmaty::Move`: a move with its squares and kind.
#[verifier::external_type_specification]
#[verifier::external_body]
pub struct ExMove(Move);

/// `shakmaty::fen::Fen`: what a text in Forsyth-Edwards notation says of a
/// position.
#[verifier::external_type_specification]
#[verifier::external_body]
pub struct ExFen(Fen);

/// The piece on a square of the position, as "is white" and the number of
/// its role (1 for the pawn up to 6 for the king), or `None` for an empty
/// square.
pub uninterp spec fn occupant(pos: Chess, square: int) -> Option<(bool, u8)>;

/// Whether White is to move in the position.
pub uninterp spec fn white_moves(pos: Chess) -> bool;

/// The castling rights of the position: one bit for each rook that may still
/// castle, bit 0 for `a1` up to bit 63 for `h8`.
pub uninterp spec fn castling_rooks(pos: Chess) -> u64;

/// The move that a notation stands for in a position, if it stands for
/// exactly one legal move there.
pub uninterp spec fn resolution(pos: Chess, san: SanPlus) -> Option<Move>;

/// A notation written out as text.
pub uninterp spec fn notation(san: SanPlus) -> Seq<char>;

/// The position that a move leads to.
pub uninterp spec fn position_after(pos: Chess, m: Move) -> Chess;

/// The kind and squares of a move.
pub uninterp spec fn event_of(m: Move) -> MoveEvent;

/// What a text reads as in Forsyth-Edwards notation, if it is written in
/// that notation.
pub uninterp spec fn parsed_fen(text: Seq<u8>) -> Option<Fen>;

/// The square that a parsed notation gives for a capture en passant, by
/// its number, if it gives one.
pub uninterp spec fn fen_en_passant(fen: Fen) -> Option<u8>;

/// The position that a parsed notation sets up, if that is a legal position
/// of standard chess.
pub uninterp spec fn fen_position(fen: Fen) -> Option<Chess>;

/// The longest notation of a position, in bytes, that the library hands to
/// `shakmaty`.
pub const FEN_LIMIT: usize = 128;

/// The pieces of the standard starting position.
pub open spec fn standard_occupant(square: int) -> Option<(bool, u8)> {
    let file = square % 8;
    let back_rank: u8 = if file == 0 || file == 7 {
        4
    } else if file == 1 || file == 6 {
        2
    } else if file == 2 || file == 5 {
        3
    } else if file == 3 {
        5
    } else {
        6
    };
    if 0 <= square < 8 {
        Some((true, back_rank))
    } else if 8 <= square < 16 {
        Some((true, 1u8))
    } else if 48 <= square < 56 {
        Some((false, 1u8))
    } else if 56 <= square < 64 {
        Some((false, back_rank))
    } else {
        None
    }
}

/// Whether a position shows the standard starting position: every piece on
/// its home square, White to move, all four rooks free to castle.
pub open spec fn is_standard_start(pos: Chess) -> bool {
    &&& forall|square: int| 0 <= square < 64 ==> occupant(pos, square) == standard_occupant(square)
    &&& white_moves(pos)
    &&& castling_rooks(pos) == 0x8100_0000_0000_0081
}

/// `Chess::default()`: the position from which every game starts. Its board
/// is `Board::new()`, White is to move and the castling rights are the four
/// corners.
#[verifier::external_body]
pub(crate) fn starting_position() -> (r: Chess)
    ensures
        is_standard_start(r),
{
    Chess::default()
}

/// `Chess::clone`: a copy of the position, equal to it in every field.
#[verifier::external_body]
pub(crate) fn copy_position(pos: &Chess) -> (r: Chess)
    ensures
        r == *pos,
{
    pos.clone()
}

/// `Fen::from_ascii`: reads a text in Forsyth-Edwards notation, or gives
/// `None` where the text is not in that notation. `shakmaty` counts the ranks
/// of the board in eight bits as it reads; a text of at most 128 bytes cannot
/// run that counter over, and longer ones are left out.
#[verifier::external_body]
pub(crate) fn parse_fen(text: &[u8]) -> (r: Option<Fen>)
    requires
        text@.len() <= FEN_LIMIT,
    ensures
        r == parsed_fen(text@),
{
    Fen::from_ascii(text).ok()
}

/// The field `ep_square` of a `Fen`: the square for a capture en passant,
/// by its number.
#[verifier::external_body]
pub(crate) fn en_passant_of(fen: &Fen) -> (r: Option<u8>)
    ensures
        r == fen_en_passant(*fen),
{
    match fen.ep_square {
        Some(square) => Some(u8::from(square)),
        None => None,
    }
}

/// `Fen::position` for standard chess: the position that the notation sets
/// up, or `None` where that is no legal position. Where the notation gives a
/// square for a capture en passant, `shakmaty` looks for the king of the side
/// to move before it has made sure that there is one, and stops the program
/// if there is none; such notations are left out.
#[verifier::external_body]
pub(crate) fn set_up(fen: &Fen) -> (r: Option<Chess>)
    requires
        fen_en_passant(*fen) is None,
    ensures
        r == fen_position(*fen),
{
    fen.position().ok()
}

/// `Board::piece_at` on the board of the position: the piece on the square,
/// handed out as "is white" and the number that `shakmaty` gives the role,
/// which is one of 1 to 6.
#[verifier::external_body]
pub(crate) fn piece_at(pos: &Chess, square: Square) -> (r: Option<(bool, u8)>)
    ensures
        r == occupant(*pos, square@),
        r matches Some((_, number)) ==> 1 <= number <= 6,
{
    match pos.board().piece_at(shakmaty::Square::new(u32::from(square.index()))) {
        Some(piece) => Some((piece.color.is_white(), u8::from(piece.role))),
        None => None,
    }
}

/// `Setup::turn` of the position: whether White is to move.
#[verifier::external_body]
pub(crate) fn white_to_move(pos: &Chess) -> (r: bool)
    ensures
        r == white_moves(*pos),
{
    pos.turn().is_white()
}

/// `Setup::castling_rights` of the position, as the bits of the bitboard
/// that it returns.
#[verifier::external_body]
pub(crate) fn castling_rights(pos: &Chess) -> (r: u64)
    ensures
        r == castling_rooks(*pos),
{
    pos.castling_rights().0
}

/// `San::to_move` on the move of the notation: the legal move of the
/// position that the notation stands for, or `None` where it stands for none
/// or for more than one.
#[verifier::external_body]
pub(crate) fn resolve(pos: &Chess, san: &SanPlus) -> (r: Option<Move>)
    ensures
        r == resolution(*pos, *san),
{
    san.san.to_move(pos).ok()
}

/// `SanPlus`'s `Display`: the notation written out as text.
#[verifier::external_body]
pub(crate) fn notation_text(san: &SanPlus) -> (r: String)
    ensures
        r@ == notation(*san),
{
    san.to_string()
}

/// `Position::play_unchecked`: makes the move on the position. `shakmaty`
/// asks that the move be legal there, so only a move that `San::to_move`
/// gave for this very position is accepted.
#[verifier::external_body]
pub(crate) fn play(pos: &mut Chess, m: &Move)
    requires
        exists|san: SanPlus| resolution(*old(pos), san) == Some(*m),
    ensures
        *final(pos) == position_after(*old(pos), *m),
{
    pos.play_unchecked(m)
}

/// The variant of a `shakmaty::Move` with the squares that it names, each
/// turned into a square of this library.
#[verifier::external_body]
pub(crate) fn describe(m: &Move) -> (r: MoveEvent)
    ensures
        r == event_of(*m),
{
    let sq = |s: shakmaty::Square| Square::new(u8::from(s)).unwrap();
    match *m {
        Move::Normal { from, to, .. } => MoveEvent::Normal { from: sq(from), to: sq(to) },
        Move::EnPassant { from, to } => MoveEvent::EnPassant { from: sq(from), to: sq(to) },
        Move::Castle { king, rook } => MoveEvent::Castle { king: sq(king), rook: sq(rook) },
        Move::Put { to, .. } => MoveEvent::Put { to: sq(to) },
    }
}

} // verus!
