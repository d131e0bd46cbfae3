//! Colors, roles and pieces.

use vstd::prelude::*;

verus! {

/// One of the two sides.
#[derive(Clone, Copy, Debug, PartialEq, Eq, Structural, Hash)]
pub enum Color {
    Black,
    White,
}

impl Color {
    /// The stable integer code of the color: 0 for black, 1 for white.
    pub open spec fn spec_code(self) -> u8 {
        match self {
            Color::Black => 0,
            Color::White => 1,
        }
    }

    /// The other side.
    pub open spec fn spec_other(self) -> Color {
        match self {
            Color::Black => Color::White,
            Color::White => Color::Black,
        }
    }

    pub open spec fn spec_from_white(white: bool) -> Color {
        if white {
            Color::White
        } else {
            Color::Black
        }
    }

    pub open spec fn spec_is_white(self) -> bool {
        self == Color::White
    }

    #[verifier::when_used_as_spec(spec_from_white)]
    pub fn from_white(white: bool) -> (c: Color)
        ensures
            c == Color::spec_from_white(white),
    {
        if white {
            Color::White
        } else {
            Color::Black
        }
    }

    #[verifier::when_used_as_spec(spec_is_white)]
    pub fn is_white(self) -> (w: bool)
        ensures
            w == self.spec_is_white(),
    {
        match self {
            Color::White => true,
            Color::Black => false,
        }
    }

    #[verifier::when_used_as_spec(spec_other)]
    pub fn other(self) -> (c: Color)
        ensures
            c == self.spec_other(),
    {
        match self {
            Color::Black => Color::White,
            Color::White => Color::Black,
        }
    }

    #[verifier::when_used_as_spec(spec_code)]
    pub fn code(self) -> (n: u8)
        ensures
            n == self.spec_code(),
    {
        match self {
            Color::Black => 0,
            Color::White => 1,
        }
    }
}

/// What kind of piece stands on a square.
#[derive(Clone, Copy, Debug, PartialEq, Eq, Structural, Hash)]
pub enum Role {
    Pawn,
    Knight,
    Bishop,
    Rook,
    Queen,
    King,
}

impl Role {
    /// The stable integer code of the role, from 1 for a pawn to 6 for a king.
    pub open spec fn spec_code(self) -> u32 {
        match self {
            Role::Pawn => 1,
            Role::Knight => 2,
            Role::Bishop => 3,
            Role::Rook => 4,
            Role::Queen => 5,
            Role::King => 6,
        }
    }

    pub open spec fn spec_from_code(code: int) -> Option<Role> {
        if code == 1 {
            Some(Role::Pawn)
        } else if code == 2 {
            Some(Role::Knight)
        } else if code == 3 {
            Some(Role::Bishop)
        } else if code == 4 {
            Some(Role::Rook)
        } else if code == 5 {
            Some(Role::Queen)
        } else if code == 6 {
            Some(Role::King)
        } else {
            None
        }
    }

    #[verifier::when_used_as_spec(spec_code)]
    pub fn code(self) -> (n: u32)
        ensures
            n == self.spec_code(),
            1 <= n <= 6,
    {
        match self {
            Role::Pawn => 1,
            Role::Knight => 2,
            Role::Bishop => 3,
            Role::Rook => 4,
            Role::Queen => 5,
            Role::King => 6,
        }
    }

    /// The role with the given code, if there is one.
    pub fn from_code(code: u32) -> (r: Option<Role>)
        ensures
            r == Role::spec_from_code(code as int),
            r matches Some(role) ==> role.spec_code() == code,
            r is None <==> !(1 <= code <= 6),
    {
        match code {
            1 => Some(Role::Pawn),
            2 => Some(Role::Knight),
            3 => Some(Role::Bishop),
            4 => Some(Role::Rook),
            5 => Some(Role::Queen),
            6 => Some(Role::King),
            _ => None,
        }
    }
}

/// Reading a role's code back gives the role.
pub proof fn role_code_round_trip(role: Role)
    ensures
        Role::spec_from_code(role.spec_code() as int) == Some(role),
{
}

/// A piece: a role of one color.
#[derive(Clone, Copy, Debug, PartialEq, Eq, Structural, Hash)]
pub struct Piece {
    pub color: Color,
    pub role: Role,
}

} // verus!
