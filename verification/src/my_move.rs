//! A move together with the text it was written as.

use vstd::prelude::*;
use vstd::string::StringExecFns;
use crate::chess::MyChess;
use crate::error::{ChessError, EncodingFault};
use crate::legal::{holds_move, legal, legal_moves, legal_moves_are_sound, lemma_legal_wf};
use crate::movement::lemma_fit_unique;
use crate::moves::{file_char, lemma_uci_injective, rank_char, role_char, Move};
use crate::position::Position;
use crate::rules::{position_text, read_uci, text_of, uci_move};
use crate::text::{has_move_shape, move_shape};

verus! {

/// A move and its text. Two of them are equal when their moves are,
/// whatever the texts.
#[derive(Debug, Clone)]
pub struct MyMove {
    chess_move: Move,
    uci: String,
}

impl View for MyMove {
    type V = (Move, Seq<char>);

    closed spec fn view(&self) -> (Move, Seq<char>) {
        (self.chess_move, self.uci@)
    }
}

impl PartialEq for MyMove {
    fn eq(&self, other: &Self) -> (r: bool) {
        self.chess_move == other.chess_move
    }
}

impl Eq for MyMove {

}

impl vstd::std_specs::cmp::PartialEqSpecImpl for MyMove {
    open spec fn obeys_eq_spec() -> bool {
        true
    }

    open spec fn eq_spec(&self, other: &Self) -> bool {
        self@.0 == other@.0
    }
}

impl MyMove {
    /// Puts a move and a text together, as they are.
    pub fn new_rust(move_: Move, uci: String) -> (m: MyMove)
        ensures
            m@ == (move_, uci@),
    {
        MyMove { chess_move: move_, uci }
    }

    /// The move.
    pub fn chess_move(&self) -> (m: Move)
        ensures
            m == self@.0,
    {
        self.chess_move
    }

    /// Whether the move sets the halfmove clock back to zero: a pawn moves
    /// or something is taken.
    pub fn is_zeroing(&self) -> (z: bool)
        ensures
            z == self@.0.spec_is_zeroing(),
    {
        self.chess_move.is_zeroing()
    }

    /// The text of the move.
    pub fn uci(&self) -> (text: String)
        ensures
            text@ == self@.1,
    {
        self.uci.clone()
    }
}

/// The first of the first `n` moves whose text is the given one.
pub open spec fn first_with_text(moves: Seq<Move>, uci: Seq<char>, n: int) -> Option<Move>
    decreases n,
{
    if n <= 0 {
        None
    } else {
        match first_with_text(moves, uci, n - 1) {
            Some(m) => Some(m),
            None => if moves[n - 1].spec_uci() == uci {
                Some(moves[n - 1])
            } else {
                None
            },
        }
    }
}

/// The move that the rules read from a move text, if it is a legal move of
/// the position.
pub open spec fn move_of_the_rules(p: Position, uci: Seq<char>) -> Option<Move> {
    match uci_move(text_of(p), uci) {
        Some(raw) => match Move::spec_decode(raw) {
            Some(m) => if legal(p).contains(m) {
                Some(m)
            } else {
                None
            },
            None => None,
        },
        None => None,
    }
}

/// The legal move that a move text stands for in a position, or the reason
/// why there is none. A text that has not the form of a move is refused as
/// malformed. Otherwise the text stands for the first legal move that is
/// written so; if there is none, for the legal move that the rules read
/// from it, which lets a king castle by a move onto its rook; and if there
/// is none either, the move is refused as illegal.
pub open spec fn move_by_text(p: Position, uci: Seq<char>) -> Result<Move, ChessError> {
    if !move_shape(uci) {
        Err(ChessError::Encoding(EncodingFault::Move))
    } else {
        match first_with_text(legal(p), uci, legal(p).len() as int) {
            Some(m) => Ok(m),
            None => match move_of_the_rules(p, uci) {
                Some(m) => Ok(m),
                None => Err(ChessError::IllegalMove),
            },
        }
    }
}

/// The first move with a text, if there is one, is a move of the list and
/// is written so; and there is one if any move of the list is written so.
pub proof fn lemma_first_with_text(moves: Seq<Move>, uci: Seq<char>, n: int)
    requires
        0 <= n <= moves.len(),
    ensures
        match first_with_text(moves, uci, n) {
            Some(m) => m.spec_uci() == uci && exists|k: int| 0 <= k < n && moves[k] == m,
            None => forall|k: int| 0 <= k < n ==> (#[trigger] moves[k]).spec_uci() != uci,
        },
    decreases n,
{
    if n > 0 {
        lemma_first_with_text(moves, uci, n - 1);
    }
}

/// The text of a move has the form of a move.
pub proof fn lemma_uci_shape(m: Move)
    requires
        m.wf(),
    ensures
        move_shape(m.spec_uci()),
{
    let s = m.spec_uci();
    let f = m.spec_from();
    let t = m.spec_to();
    assert(f < 64 && t < 64);
    assert(s[0] == file_char(f % 8));
    assert(s[1] == rank_char(f / 8));
    assert(s[2] == file_char(t % 8));
    assert(s[3] == rank_char(t / 8));
    match m.spec_promotion() {
        Some(role) => {
            assert(s.len() == 5);
            assert(s[4] == role_char(role));
        },
        None => {
            assert(s.len() == 4);
        },
    }
}

/// Reading the text of a legal move gives the move again.
pub proof fn move_text_reads_back(p: Position, m: Move)
    requires
        legal(p).contains(m),
    ensures
        move_by_text(p, m.spec_uci()) == Ok::<Move, ChessError>(m),
{
    let moves = legal(p);
    let uci = m.spec_uci();
    lemma_legal_wf(p, m);
    lemma_uci_shape(m);
    lemma_first_with_text(moves, uci, moves.len() as int);
    let k = choose|k: int| 0 <= k < moves.len() && moves[k] == m;
    lemma_first_with_text_least(moves, uci, moves.len() as int, k);
    let found = first_with_text(moves, uci, moves.len() as int).unwrap();
    assert(moves.contains(found));
    lemma_legal_wf(p, found);
    legal_moves_are_sound(p, found);
    legal_moves_are_sound(p, m);
    lemma_uci_injective(found, m);
    lemma_fit_unique(p, found, m);
}

/// Where no earlier move is written as the move with index `k` is, the
/// first move with that text is that move.
proof fn lemma_first_with_text_least(moves: Seq<Move>, uci: Seq<char>, n: int, k: int)
    requires
        0 <= k < n <= moves.len(),
        moves[k].spec_uci() == uci,
    ensures
        first_with_text(moves, uci, n).is_some(),
        (forall|j: int| 0 <= j < k ==> (#[trigger] moves[j]).spec_uci() != uci) ==> first_with_text(
            moves,
            uci,
            n,
        ) == Some(moves[k]),
    decreases n,
{
    if n - 1 > k {
        lemma_first_with_text_least(moves, uci, n - 1, k);
    } else {
        lemma_first_with_text(moves, uci, n - 1);
    }
}

impl MyMove {
    /// Reads a move from its text, for the position of the game. The text
    /// is kept as it was given.
    pub fn new(uci: &str, my_chess: &MyChess) -> (r: Result<MyMove, ChessError>)
        ensures
            r matches Ok(m) ==> move_by_text(my_chess@, uci@) == Ok::<Move, ChessError>(m@.0),
            r matches Ok(m) ==> m@.1 == uci@ && legal(my_chess@).contains(m@.0),
            r matches Err(e) ==> move_by_text(my_chess@, uci@) == Err::<Move, ChessError>(e),
    {
        if !has_move_shape(uci) {
            return Err(ChessError::Encoding(EncodingFault::Move));
        }
        let given = String::from_str(uci);
        let pos = my_chess.position();
        let moves = legal_moves(&pos);
        let mut k: usize = 0;
        while k < moves.len()
            invariant
                k <= moves.len(),
                pos == my_chess@,
                moves@ == legal(pos),
                forall|j: int| 0 <= j < moves.len() ==> (#[trigger] moves[j]).wf(),
                given@ == uci@,
                first_with_text(moves@, uci@, k as int).is_none(),
            decreases moves.len() - k,
        {
            if moves[k].uci() == given {
                proof {
                    lemma_first_with_text_least(moves@, uci@, moves.len() as int, k as int);
                    lemma_first_with_text(moves@, uci@, k as int);
                }
                return Ok(MyMove::new_rust(moves[k], given));
            }
            k = k + 1;
        }
        let plain = position_text(&pos);
        let raw = match read_uci(plain.as_str(), uci) {
            Some(raw) => raw,
            None => {
                return Err(ChessError::IllegalMove);
            },
        };
        match Move::decode(&raw) {
            Some(m) => if holds_move(&moves, m) {
                Ok(MyMove::new_rust(m, given))
            } else {
                Err(ChessError::IllegalMove)
            },
            None => Err(ChessError::IllegalMove),
        }
    }
}

} // verus!
