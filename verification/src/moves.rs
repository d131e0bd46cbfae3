//! Moves and their text.

use vstd::prelude::*;
use vstd::string::StringExecFns;
use crate::piece::Role;

verus! {

/// A move. It says what is moved and what is taken, so that it can be
/// understood without the position it was made for; it is a move of that
/// position only.
#[derive(Clone, Copy, Debug, PartialEq, Eq, Structural, Hash)]
pub enum Move {
    /// A piece goes from one square to another, takes what stands there and,
    /// if it is a pawn that reaches the last rank, becomes another piece.
    Normal { role: Role, from: u8, capture: Option<Role>, to: u8, promotion: Option<Role> },
    /// A pawn takes the pawn that has just passed it.
    EnPassant { from: u8, to: u8 },
    /// The king castles with the rook on the given square.
    Castle { king: u8, rook: u8 },
}

/// A move as the rules hand it over: integer codes, nothing checked.
#[derive(Clone, Copy, Debug, PartialEq, Eq, Structural, Hash)]
pub struct RawMove {
    pub castle: bool,
    pub en_passant: bool,
    pub role: u32,
    pub from: Option<u8>,
    pub capture: Option<u32>,
    pub to: u8,
    pub promotion: Option<u32>,
}

/// The role that an optional code stands for: `Some(None)` for no code,
/// `None` for a code that is no role.
pub open spec fn spec_optional_role(code: Option<u32>) -> Option<Option<Role>> {
    match code {
        None => Some(None),
        Some(c) => match Role::spec_from_code(c as int) {
            Some(role) => Some(Some(role)),
            None => None,
        },
    }
}

fn optional_role(code: Option<u32>) -> (r: Option<Option<Role>>)
    ensures
        r == spec_optional_role(code),
{
    match code {
        None => Some(None),
        Some(c) => match Role::from_code(c) {
            Some(role) => Some(Some(role)),
            None => None,
        },
    }
}

impl Move {
    /// Whether the squares of the move are squares.
    pub open spec fn wf(self) -> bool {
        match self {
            Move::Normal { from, to, .. } => from < 64 && to < 64,
            Move::EnPassant { from, to } => from < 64 && to < 64,
            Move::Castle { king, rook } => king < 64 && rook < 64,
        }
    }

    /// The move that integer codes stand for, if they stand for one.
    pub open spec fn spec_decode(raw: RawMove) -> Option<Move> {
        match raw.from {
            None => None,
            Some(from) => if from >= 64 || raw.to >= 64 {
                None
            } else if raw.castle {
                Some(Move::Castle { king: from, rook: raw.to })
            } else if raw.en_passant {
                Some(Move::EnPassant { from, to: raw.to })
            } else {
                match (
                    Role::spec_from_code(raw.role as int),
                    spec_optional_role(raw.capture),
                    spec_optional_role(raw.promotion),
                ) {
                    (Some(role), Some(capture), Some(promotion)) => Some(
                        Move::Normal { role, from, capture, to: raw.to, promotion },
                    ),
                    _ => None,
                }
            },
        }
    }

    /// Reads a move from integer codes.
    pub fn decode(raw: &RawMove) -> (m: Option<Move>)
        ensures
            m == Move::spec_decode(*raw),
            m matches Some(mv) ==> mv.wf(),
    {
        let from = match raw.from {
            None => {
                return None;
            },
            Some(f) => f,
        };
        if from >= 64 || raw.to >= 64 {
            return None;
        }
        if raw.castle {
            return Some(Move::Castle { king: from, rook: raw.to });
        }
        if raw.en_passant {
            return Some(Move::EnPassant { from, to: raw.to });
        }
        match (Role::from_code(raw.role), optional_role(raw.capture), optional_role(raw.promotion)) {
            (Some(role), Some(capture), Some(promotion)) => Some(
                Move::Normal { role, from, capture, to: raw.to, promotion },
            ),
            _ => None,
        }
    }

    /// Whether the move sets the halfmove clock back to zero: a pawn moves
    /// or something is taken.
    pub open spec fn spec_is_zeroing(self) -> bool {
        match self {
            Move::Normal { role, capture, .. } => role == Role::Pawn || capture.is_some(),
            Move::EnPassant { .. } => true,
            Move::Castle { .. } => false,
        }
    }

    /// Whether the move sets the halfmove clock back to zero.
    #[verifier::when_used_as_spec(spec_is_zeroing)]
    pub fn is_zeroing(self) -> (z: bool)
        ensures
            z == self.spec_is_zeroing(),
    {
        match self {
            Move::Normal { role, capture, .. } => role == Role::Pawn || capture.is_some(),
            Move::EnPassant { .. } => true,
            Move::Castle { .. } => false,
        }
    }

    /// The square the moved piece leaves; for castling, the king's.
    pub open spec fn spec_from(self) -> u8 {
        match self {
            Move::Normal { from, .. } => from,
            Move::EnPassant { from, .. } => from,
            Move::Castle { king, .. } => king,
        }
    }

    /// The square where the moved piece arrives. A castling king goes to the
    /// g-file or the c-file of its rank, whichever is on the rook's side.
    pub open spec fn spec_to(self) -> u8 {
        match self {
            Move::Normal { to, .. } => to,
            Move::EnPassant { to, .. } => to,
            Move::Castle { king, rook } => if king < rook {
                (king / 8 * 8 + 6) as u8
            } else {
                (king / 8 * 8 + 2) as u8
            },
        }
    }

    /// The role a pawn is promoted to, if the move promotes.
    pub open spec fn spec_promotion(self) -> Option<Role> {
        match self {
            Move::Normal { promotion, .. } => promotion,
            _ => None,
        }
    }

    #[verifier::when_used_as_spec(spec_from)]
    pub fn from(self) -> (sq: u8)
        ensures
            sq == self.spec_from(),
    {
        match self {
            Move::Normal { from, .. } => from,
            Move::EnPassant { from, .. } => from,
            Move::Castle { king, .. } => king,
        }
    }

    #[verifier::when_used_as_spec(spec_to)]
    pub fn to(self) -> (sq: u8)
        ensures
            sq == self.spec_to(),
            self.wf() ==> sq < 64,
    {
        match self {
            Move::Normal { to, .. } => to,
            Move::EnPassant { to, .. } => to,
            Move::Castle { king, rook } => if king < rook {
                king / 8 * 8 + 6
            } else {
                king / 8 * 8 + 2
            },
        }
    }

    #[verifier::when_used_as_spec(spec_promotion)]
    pub fn promotion(self) -> (p: Option<Role>)
        ensures
            p == self.spec_promotion(),
    {
        match self {
            Move::Normal { promotion, .. } => promotion,
            _ => None,
        }
    }

    /// The text of the move: the square the piece leaves, the square where
    /// it arrives and, for a promotion, the letter of the new role. Castling
    /// is written as the move of the king.
    pub open spec fn spec_uci(self) -> Seq<char> {
        square_chars(self.spec_from()) + square_chars(self.spec_to()) + match self.spec_promotion() {
            Some(role) => seq![role_char(role)],
            None => Seq::empty(),
        }
    }

    /// Writes the move as text.
    pub fn uci(self) -> (text: String)
        requires
            self.wf(),
        ensures
            text@ == self.spec_uci(),
    {
        let from = self.from();
        let to = self.to();
        let mut text = String::from_str(file_str(from % 8));
        text.append(rank_str(from / 8));
        text.append(file_str(to % 8));
        text.append(rank_str(to / 8));
        match self.promotion() {
            Some(role) => {
                text.append(role_str(role));
            },
            None => {},
        }
        proof {
            assert(text@ =~= self.spec_uci());
        }
        text
    }
}

/// The letter of a file, counted from 0.
pub open spec fn file_char(file: u8) -> char {
    if file == 0 {
        'a'
    } else if file == 1 {
        'b'
    } else if file == 2 {
        'c'
    } else if file == 3 {
        'd'
    } else if file == 4 {
        'e'
    } else if file == 5 {
        'f'
    } else if file == 6 {
        'g'
    } else {
        'h'
    }
}

/// The digit of a rank, counted from 0.
pub open spec fn rank_char(rank: u8) -> char {
    if rank == 0 {
        '1'
    } else if rank == 1 {
        '2'
    } else if rank == 2 {
        '3'
    } else if rank == 3 {
        '4'
    } else if rank == 4 {
        '5'
    } else if rank == 5 {
        '6'
    } else if rank == 6 {
        '7'
    } else {
        '8'
    }
}

/// The lower-case letter of a role.
pub open spec fn role_char(role: Role) -> char {
    match role {
        Role::Pawn => 'p',
        Role::Knight => 'n',
        Role::Bishop => 'b',
        Role::Rook => 'r',
        Role::Queen => 'q',
        Role::King => 'k',
    }
}

/// The name of a square: the letter of its file and the digit of its rank.
pub open spec fn square_chars(sq: u8) -> Seq<char> {
    seq![file_char(sq % 8), rank_char(sq / 8)]
}

/// Moves that are written the same leave the same square, reach the same
/// square and promote to the same role.
pub proof fn lemma_uci_injective(a: Move, b: Move)
    requires
        a.wf(),
        b.wf(),
        a.spec_uci() == b.spec_uci(),
    ensures
        a.spec_from() == b.spec_from(),
        a.spec_to() == b.spec_to(),
        a.spec_promotion() == b.spec_promotion(),
{
    let s = a.spec_uci();
    let t = b.spec_uci();
    let (fa, ta) = (a.spec_from(), a.spec_to());
    let (fb, tb) = (b.spec_from(), b.spec_to());
    assert(fa < 64 && ta < 64 && fb < 64 && tb < 64);
    assert(s[0] == file_char(fa % 8) && t[0] == file_char(fb % 8));
    assert(s[1] == rank_char(fa / 8) && t[1] == rank_char(fb / 8));
    assert(s[2] == file_char(ta % 8) && t[2] == file_char(tb % 8));
    assert(s[3] == rank_char(ta / 8) && t[3] == rank_char(tb / 8));
    assert(fa % 8 == fb % 8 && fa / 8 == fb / 8);
    assert(ta % 8 == tb % 8 && ta / 8 == tb / 8);
    match (a.spec_promotion(), b.spec_promotion()) {
        (Some(ra), Some(rb)) => {
            assert(s[4] == role_char(ra) && t[4] == role_char(rb));
        },
        (Some(_), None) => {
            assert(s.len() == 5 && t.len() == 4);
        },
        (None, Some(_)) => {
            assert(s.len() == 4 && t.len() == 5);
        },
        (None, None) => {},
    }
}

fn file_str(file: u8) -> (s: &'static str)
    requires
        file < 8,
    ensures
        s@ == seq![file_char(file)],
{
    proof {
        reveal_strlit("a");
        reveal_strlit("b");
        reveal_strlit("c");
        reveal_strlit("d");
        reveal_strlit("e");
        reveal_strlit("f");
        reveal_strlit("g");
        reveal_strlit("h");
    }
    let s = if file == 0 {
        "a"
    } else if file == 1 {
        "b"
    } else if file == 2 {
        "c"
    } else if file == 3 {
        "d"
    } else if file == 4 {
        "e"
    } else if file == 5 {
        "f"
    } else if file == 6 {
        "g"
    } else {
        "h"
    };
    assert(s@ =~= seq![file_char(file)]);
    s
}

fn rank_str(rank: u8) -> (s: &'static str)
    requires
        rank < 8,
    ensures
        s@ == seq![rank_char(rank)],
{
    proof {
        reveal_strlit("1");
        reveal_strlit("2");
        reveal_strlit("3");
        reveal_strlit("4");
        reveal_strlit("5");
        reveal_strlit("6");
        reveal_strlit("7");
        reveal_strlit("8");
    }
    let s = if rank == 0 {
        "1"
    } else if rank == 1 {
        "2"
    } else if rank == 2 {
        "3"
    } else if rank == 3 {
        "4"
    } else if rank == 4 {
        "5"
    } else if rank == 5 {
        "6"
    } else if rank == 6 {
        "7"
    } else {
        "8"
    };
    assert(s@ =~= seq![rank_char(rank)]);
    s
}

fn role_str(role: Role) -> (s: &'static str)
    ensures
        s@ == seq![role_char(role)],
{
    proof {
        reveal_strlit("p");
        reveal_strlit("n");
        reveal_strlit("b");
        reveal_strlit("r");
        reveal_strlit("q");
        reveal_strlit("k");
    }
    let s = match role {
        Role::Pawn => "p",
        Role::Knight => "n",
        Role::Bishop => "b",
        Role::Rook => "r",
        Role::Queen => "q",
        Role::King => "k",
    };
    assert(s@ =~= seq![role_char(role)]);
    s
}

} // verus!
