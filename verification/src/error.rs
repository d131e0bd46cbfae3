//! The errors of the library.

use vstd::prelude::*;
use vstd::string::StringExecFns;

verus! {

/// Why a text or a number could not be read.
#[derive(Clone, Copy, Debug, PartialEq, Eq, Structural, Hash)]
pub enum EncodingFault {
    /// A position text does not have exactly six fields.
    FieldCount,
    /// The piece placement holds a character that is no piece letter, no
    /// digit from 1 to 8 and no slash.
    Symbol,
    /// A rank of the piece placement does not add up to eight files, or the
    /// placement does not have eight ranks.
    RankSum,
    /// The text has six fields, but they cannot be read as a position.
    Syntax,
    /// A square number is not below 64.
    Square,
    /// A move text is not two squares and, at most, a promotion letter.
    Move,
}

/// Why a tablebase had no answer.
#[derive(Clone, Copy, Debug, PartialEq, Eq, Structural, Hash)]
pub enum ProbeFault {
    /// The position has more pieces than the tables cover, or castling
    /// rights, which no table covers.
    OutOfDomain,
    /// A table that the position needs is not there or cannot be read.
    Unavailable,
}

/// What can go wrong in the library.
#[derive(Clone, Copy, Debug, PartialEq, Eq, Structural, Hash)]
pub enum ChessError {
    /// A text or a number is malformed.
    Encoding(EncodingFault),
    /// The text is well formed but describes no position that can be played:
    /// a side has no king or several, or the side that is not to move is
    /// in check.
    IllegalPosition,
    /// The move is not among the legal moves of the position.
    IllegalMove,
    /// A tablebase has no answer for the position.
    Probe(ProbeFault),
}

impl ChessError {
    /// The text of the error's message.
    pub open spec fn spec_message(self) -> Seq<char> {
        match self {
            ChessError::Encoding(EncodingFault::FieldCount) => "position text must have six fields"@,
            ChessError::Encoding(EncodingFault::Symbol) => "invalid symbol in piece placement"@,
            ChessError::Encoding(EncodingFault::RankSum) => {
                "piece placement must have eight ranks of eight files"@
            },
            ChessError::Encoding(EncodingFault::Syntax) => "invalid field in position text"@,
            ChessError::Encoding(EncodingFault::Square) => "square out of range"@,
            ChessError::Encoding(EncodingFault::Move) => "invalid move text"@,
            ChessError::IllegalPosition => "illegal position"@,
            ChessError::IllegalMove => "illegal move"@,
            ChessError::Probe(ProbeFault::OutOfDomain) => "position outside the tablebase"@,
            ChessError::Probe(ProbeFault::Unavailable) => "tablebase data unavailable"@,
        }
    }

    /// A description of the error for a reader.
    pub fn message(&self) -> (text: String)
        ensures
            text@ == self.spec_message(),
    {
        let s = match self {
            ChessError::Encoding(EncodingFault::FieldCount) => "position text must have six fields",
            ChessError::Encoding(EncodingFault::Symbol) => "invalid symbol in piece placement",
            ChessError::Encoding(EncodingFault::RankSum) => {
                "piece placement must have eight ranks of eight files"
            },
            ChessError::Encoding(EncodingFault::Syntax) => "invalid field in position text",
            ChessError::Encoding(EncodingFault::Square) => "square out of range",
            ChessError::Encoding(EncodingFault::Move) => "invalid move text",
            ChessError::IllegalPosition => "illegal position",
            ChessError::IllegalMove => "illegal move",
            ChessError::Probe(ProbeFault::OutOfDomain) => "position outside the tablebase",
            ChessError::Probe(ProbeFault::Unavailable) => "tablebase data unavailable",
        };
        String::from_str(s)
    }
}

} // verus!
