//! How a game stands.

use vstd::prelude::*;
use vstd::string::StringExecFns;
use crate::legal::{in_check, is_in_check, legal, legal_moves, valid};
use crate::piece::Color;
use crate::position::Position;
use crate::rules::{insufficient_material, is_insufficient_material, position_text, text_of};

verus! {

/// Why a game is drawn.
#[derive(Clone, Copy, Debug, PartialEq, Eq, Structural, Hash)]
pub enum DrawReason {
    /// The side to move has no legal move and is not in check.
    Stalemate,
    /// Neither side has the material to win.
    InsufficientMaterial,
    /// Fifty moves of each side have passed without a capture or a pawn
    /// move.
    FiftyMoves,
}

/// How a game stands.
#[derive(Clone, Copy, Debug, PartialEq, Eq, Structural, Hash)]
pub enum Outcome {
    /// The game goes on.
    Ongoing,
    /// The side has won: the other side is to move, is in check and has no
    /// legal move.
    Win(Color),
    /// The game is drawn.
    Draw(DrawReason),
}

impl Outcome {
    /// The outcome as the usual text: `1-0`, `0-1`, `1/2-1/2`, or `*` for a
    /// game that goes on.
    pub open spec fn spec_text(self) -> Seq<char> {
        match self {
            Outcome::Ongoing => "*"@,
            Outcome::Win(Color::White) => "1-0"@,
            Outcome::Win(Color::Black) => "0-1"@,
            Outcome::Draw(_) => "1/2-1/2"@,
        }
    }

    /// The outcome as the usual text.
    pub fn text(self) -> (s: String)
        ensures
            s@ == self.spec_text(),
    {
        String::from_str(
            match self {
                Outcome::Ongoing => "*",
                Outcome::Win(Color::White) => "1-0",
                Outcome::Win(Color::Black) => "0-1",
                Outcome::Draw(_) => "1/2-1/2",
            },
        )
    }

    /// Whether the game has ended.
    pub open spec fn spec_is_over(self) -> bool {
        self != Outcome::Ongoing
    }

    /// Whether the game has ended.
    #[verifier::when_used_as_spec(spec_is_over)]
    pub fn is_over(self) -> (r: bool)
        ensures
            r == self.spec_is_over(),
    {
        match self {
            Outcome::Ongoing => false,
            _ => true,
        }
    }
}

/// How the game stands in a position: won by the side that has mated, drawn
/// by stalemate, by want of material or by the fifty-move rule, or going on.
pub open spec fn outcome_of(p: Position) -> Outcome {
    if legal(p).len() == 0 {
        if in_check(p.board, p.turn) {
            Outcome::Win(p.turn.spec_other())
        } else {
            Outcome::Draw(DrawReason::Stalemate)
        }
    } else if insufficient_material(text_of(p)) {
        Outcome::Draw(DrawReason::InsufficientMaterial)
    } else if p.halfmoves >= 100 {
        Outcome::Draw(DrawReason::FiftyMoves)
    } else {
        Outcome::Ongoing
    }
}

/// Works out how the game stands in a position.
pub(crate) fn find_outcome(pos: &Position) -> (o: Outcome)
    requires
        valid(*pos),
    ensures
        o == outcome_of(*pos),
{
    let moves = legal_moves(pos);
    if moves.len() == 0 {
        if is_in_check(&pos.board, pos.turn) {
            Outcome::Win(pos.turn.other())
        } else {
            Outcome::Draw(DrawReason::Stalemate)
        }
    } else {
        let plain = position_text(pos);
        if is_insufficient_material(plain.as_str()) {
            Outcome::Draw(DrawReason::InsufficientMaterial)
        } else if pos.halfmoves >= 100 {
            Outcome::Draw(DrawReason::FiftyMoves)
        } else {
            Outcome::Ongoing
        }
    }
}

} // verus!
