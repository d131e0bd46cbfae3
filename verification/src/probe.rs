//! What the library does with the answers of an endgame tablebase.
//!
//! The tablebase itself is asked elsewhere: it reads files. Here stands
//! what is decided before the question and made of the answer.

use vstd::prelude::*;
use crate::bits::count;
use crate::error::{ChessError, ProbeFault};
use crate::position::Position;

verus! {

/// How a position stands for the side to move, the fifty-move rule taken
/// into account.
#[derive(Clone, Copy, Debug, PartialEq, Eq, Structural, Hash)]
pub enum Wdl {
    /// Lost.
    Loss,
    /// Lost on the board, but drawn by the fifty-move rule.
    BlessedLoss,
    /// Drawn.
    Draw,
    /// Won on the board, but drawn by the fifty-move rule.
    CursedWin,
    /// Won.
    Win,
}

impl Wdl {
    /// The number of the value, from -2 for a loss to 2 for a win.
    pub open spec fn spec_code(self) -> i8 {
        match self {
            Wdl::Loss => -2i8,
            Wdl::BlessedLoss => -1i8,
            Wdl::Draw => 0i8,
            Wdl::CursedWin => 1i8,
            Wdl::Win => 2i8,
        }
    }

    /// The number of the value, from -2 for a loss to 2 for a win.
    #[verifier::when_used_as_spec(spec_code)]
    pub fn code(self) -> (n: i8)
        ensures
            n == self.spec_code(),
    {
        match self {
            Wdl::Loss => -2,
            Wdl::BlessedLoss => -1,
            Wdl::Draw => 0,
            Wdl::CursedWin => 1,
            Wdl::Win => 2,
        }
    }

    /// The value with the given number, if there is one.
    pub fn from_code(n: i8) -> (w: Option<Wdl>)
        ensures
            w matches Some(v) ==> v.spec_code() == n,
            w.is_none() <==> !(-2 <= n <= 2),
    {
        match n {
            -2 => Some(Wdl::Loss),
            -1 => Some(Wdl::BlessedLoss),
            0 => Some(Wdl::Draw),
            1 => Some(Wdl::CursedWin),
            2 => Some(Wdl::Win),
            _ => None,
        }
    }
}

/// Why a tablebase gave no answer, as the tablebase says it.
#[derive(Clone, Copy, Debug, PartialEq, Eq, Structural, Hash)]
pub enum ProbeFailure {
    /// The position has castling rights.
    Castling,
    /// The position has more pieces than any table.
    TooManyPieces,
    /// The table for the pieces of the position is not there.
    MissingTable,
    /// The table could not be read.
    ProbeFailed,
}

impl ProbeFailure {
    /// The error that the library reports for the failure: a position with
    /// castling rights or too many pieces is outside the domain of the
    /// tables; a table that is missing or cannot be read is unavailable.
    pub open spec fn spec_error(self) -> ChessError {
        match self {
            ProbeFailure::Castling => ChessError::Probe(ProbeFault::OutOfDomain),
            ProbeFailure::TooManyPieces => ChessError::Probe(ProbeFault::OutOfDomain),
            ProbeFailure::MissingTable => ChessError::Probe(ProbeFault::Unavailable),
            ProbeFailure::ProbeFailed => ChessError::Probe(ProbeFault::Unavailable),
        }
    }

    /// The error that the library reports for the failure.
    #[verifier::when_used_as_spec(spec_error)]
    pub fn error(self) -> (e: ChessError)
        ensures
            e == self.spec_error(),
    {
        match self {
            ProbeFailure::Castling => ChessError::Probe(ProbeFault::OutOfDomain),
            ProbeFailure::TooManyPieces => ChessError::Probe(ProbeFault::OutOfDomain),
            ProbeFailure::MissingTable => ChessError::Probe(ProbeFault::Unavailable),
            ProbeFailure::ProbeFailed => ChessError::Probe(ProbeFault::Unavailable),
        }
    }
}

/// What the library reports of a question for win, draw or loss: the
/// number of the value, or the error for the failure.
pub fn wdl_answer(reply: Result<Wdl, ProbeFailure>) -> (r: Result<i8, ChessError>)
    ensures
        r == match reply {
            Ok(w) => Ok::<i8, ChessError>(w.spec_code()),
            Err(f) => Err::<i8, ChessError>(f.spec_error()),
        },
{
    match reply {
        Ok(w) => Ok(w.code()),
        Err(f) => Err(f.error()),
    }
}

/// What the library reports of a question for the distance to the next
/// capture or pawn move: the distance, or the error for the failure.
pub fn dtz_answer(reply: Result<i32, ProbeFailure>) -> (r: Result<i32, ChessError>)
    ensures
        r == match reply {
            Ok(d) => Ok::<i32, ChessError>(d),
            Err(f) => Err::<i32, ChessError>(f.spec_error()),
        },
{
    match reply {
        Ok(d) => Ok(d),
        Err(f) => Err(f.error()),
    }
}

/// Whether tables for at most `max_pieces` pieces can cover the position:
/// it has no castling rights and no more pieces than that.
pub open spec fn in_domain(p: Position, max_pieces: u32) -> bool {
    p.castling_rights == 0 && count(p.board.spec_occupied()) <= max_pieces
}

/// Says, before a tablebase is asked, whether it can cover the position.
pub fn check_domain(p: &Position, max_pieces: u32) -> (r: Result<(), ChessError>)
    ensures
        in_domain(*p, max_pieces) ==> r.is_ok(),
        !in_domain(*p, max_pieces) ==> r == Err::<(), ChessError>(ChessError::Probe(ProbeFault::OutOfDomain)),
{
    if p.castling_rights == 0 && p.board.piece_count() <= max_pieces {
        Ok(())
    } else {
        Err(ChessError::Probe(ProbeFault::OutOfDomain))
    }
}

} // verus!
