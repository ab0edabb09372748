//! Pieces: a colour and a role.

use vstd::prelude::*;

verus! {

/// The two sides.
#[derive(Clone, Copy, Debug, PartialEq, Eq, Structural, Hash)]
pub enum Color {
    White,
    Black,
}

/// The six kinds of piece.
#[derive(Clone, Copy, Debug, PartialEq, Eq, Structural, Hash)]
pub enum Role {
    Pawn,
    Knight,
    Bishop,
    Rook,
    Queen,
    King,
}

/// A piece of one side.
#[derive(Clone, Copy, Debug, PartialEq, Eq, Structural, Hash)]
pub struct Piece {
    pub color: Color,
    pub role: Role,
}

/// The side that a flag "is white" stands for.
pub open spec fn color_of(white: bool) -> Color {
    if white {
        Color::White
    } else {
        Color::Black
    }
}

/// The role with the given number: 1 for the pawn, then knight, bishop, rook
/// and queen, 6 for the king.
pub open spec fn role_of(number: u8) -> Role {
    if number == 1 {
        Role::Pawn
    } else if number == 2 {
        Role::Knight
    } else if number == 3 {
        Role::Bishop
    } else if number == 4 {
        Role::Rook
    } else if number == 5 {
        Role::Queen
    } else {
        Role::King
    }
}

/// The piece that a pair of "is white" and role number stands for.
pub open spec fn piece_of(code: Option<(bool, u8)>) -> Option<Piece> {
    match code {
        Some((white, number)) => Some(Piece { color: color_of(white), role: role_of(number) }),
        None => None,
    }
}

impl Color {
    /// The side that a flag "is white" stands for.
    pub fn from_white(white: bool) -> (r: Color)
        ensures
            r == color_of(white),
    {
        if white {
            Color::White
        } else {
            Color::Black
        }
    }
}

impl Role {
    /// The role with the given number, counted from 1 for the pawn to 6 for
    /// the king; no other number stands for a role.
    pub fn from_number(number: u8) -> (r: Option<Role>)
        ensures
            r is Some <==> 1 <= number <= 6,
            r matches Some(role) ==> role == role_of(number),
    {
        if number == 1 {
            Some(Role::Pawn)
        } else if number == 2 {
            Some(Role::Knight)
        } else if number == 3 {
            Some(Role::Bishop)
        } else if number == 4 {
            Some(Role::Rook)
        } else if number == 5 {
            Some(Role::Queen)
        } else if number == 6 {
            Some(Role::King)
        } else {
            None
        }
    }
}

} // verus!
