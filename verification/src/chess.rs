//! A game of chess in progress.

use vstd::prelude::*;
use vstd::utf8::is_ascii_chars;
use vstd::string::StringExecFns;
use std::collections::HashMap;
use crate::bits::{count, holds};
use crate::board::Board;
use crate::error::{ChessError, EncodingFault};
use crate::hash::{fingerprint, hash};
use crate::legal::{
    advance, check_valid, distinct, find_ep_available, legal, legal_moves, legal_moves_are_distinct,
    lemma_legal_wf, play_is_by_legal_moves, play_result, valid,
};
use crate::moves::Move;
use crate::my_move::MyMove;
use crate::outcome::{find_outcome, outcome_of, Outcome};
use crate::piece::Color;
use crate::position::{Position, A1, A8, H1, H8};
use crate::record::{diff, move_can_be_taken_back, record_of, ChangeRecord};
use crate::rules::{position_text, read_position, text_of, text_position};
use crate::text::{
    before_space, check_placement, count_fields, field_count, placement_fault, take_before_space,
};

verus! {

/// What reading a position text gives: the position, or the reason why
/// there is none. A text with a character outside ASCII is refused for that
/// symbol; one without exactly six fields, for its field count; one with a
/// malformed piece placement, for the first fault in it; one that the rules
/// cannot read for another reason, for its syntax; one that they read but
/// do not accept as a position that can be played, as an illegal position.
pub open spec fn read_result(text: Seq<char>) -> Result<Position, ChessError> {
    if !is_ascii_chars(text) {
        Err(ChessError::Encoding(EncodingFault::Symbol))
    } else if field_count(text) != 6 {
        Err(ChessError::Encoding(EncodingFault::FieldCount))
    } else {
        match placement_fault(text) {
            Some(fault) => Err(ChessError::Encoding(fault)),
            None => match text_position(text) {
                None => Err(ChessError::Encoding(EncodingFault::Syntax)),
                Some(p) => if valid(p) {
                    Ok(p)
                } else {
                    Err(ChessError::IllegalPosition)
                },
            },
        }
    }
}

/// Whether the square holds a piece of the color that a piece of the other
/// color attacks.
pub open spec fn is_target(board: Board, color: Color, sq: u8) -> bool {
    &&& board.piece_on(sq) matches Some(p)
    &&& p.color == color
    &&& board.spec_is_attacked(sq, color.spec_other())
}

/// The pieces of a board as a map from each occupied square to the code of
/// the role of its piece and whether the piece is white.
pub open spec fn piece_map_of(board: Board) -> Map<u64, (u32, bool)> {
    Map::new(
        |k: u64| k < 64 && board.piece_on(k as u8).is_some(),
        |k: u64|
            (
                board.piece_on(k as u8).unwrap().role.spec_code(),
                board.piece_on(k as u8).unwrap().color == Color::White,
            ),
    )
}

/// A position of standard chess that can be played.
#[derive(Clone, Copy, Debug)]
pub struct MyChess {
    pos: Position,
    outcome: Option<Outcome>,
}

impl View for MyChess {
    type V = Position;

    closed spec fn view(&self) -> Position {
        self.pos
    }
}

impl MyChess {
    #[verifier::type_invariant]
    spec fn inv(self) -> bool {
        &&& valid(self.pos)
        &&& self.outcome matches Some(o) ==> o == outcome_of(self.pos)
    }

    /// Reads a position from its text: piece placement, side to move,
    /// castling rights, en-passant target, halfmove clock and move number.
    pub fn new(fen: &str) -> (r: Result<MyChess, ChessError>)
        ensures
            r matches Ok(c) ==> read_result(fen@) == Ok::<Position, ChessError>(c@) && valid(c@),
            r matches Err(e) ==> read_result(fen@) == Err::<Position, ChessError>(e),
    {
        if !fen.is_ascii() {
            return Err(ChessError::Encoding(EncodingFault::Symbol));
        }
        if count_fields(fen) != 6 {
            return Err(ChessError::Encoding(EncodingFault::FieldCount));
        }
        match check_placement(fen) {
            Some(fault) => {
                return Err(ChessError::Encoding(fault));
            },
            None => {},
        }
        let pos = match read_position(fen) {
            None => {
                return Err(ChessError::Encoding(EncodingFault::Syntax));
            },
            Some(p) => p,
        };
        if !check_valid(&pos) {
            return Err(ChessError::IllegalPosition);
        }
        Ok(MyChess { pos, outcome: None })
    }

    /// A copy of the game.
    pub fn copy(&self) -> (c: MyChess)
        ensures
            c@ == self@,
    {
        proof {
            use_type_invariant(self);
        }
        MyChess { pos: self.pos, outcome: self.outcome }
    }

    /// The position as plain values.
    pub fn position(&self) -> (p: Position)
        ensures
            p == self@,
            valid(p),
    {
        proof {
            use_type_invariant(self);
        }
        self.pos
    }

    /// The position as text, the en-passant target written whenever a pawn
    /// has advanced two squares. Reading the text gives the position again,
    /// marks of promotion aside.
    pub fn text(&self) -> (text: String)
        ensures
            text@ == text_of(self@),
            read_result(text@) == Ok::<Position, ChessError>(self@.unmarked()),
    {
        proof {
            use_type_invariant(self);
            text_reads_back(self.pos);
        }
        position_text(&self.pos)
    }

    /// The position as text: piece placement, side to move, castling
    /// rights, en-passant target, halfmove clock and move number. The target
    /// is written whenever a pawn has advanced two squares, so that reading
    /// the text gives the position again, marks of promotion aside.
    pub fn fen(&self) -> (text: String)
        ensures
            text@ == text_of(self@),
            read_result(text@) == Ok::<Position, ChessError>(self@.unmarked()),
    {
        self.text()
    }

    /// The piece placement, behind the words `board fen: `: the first field
    /// of the text of the position.
    pub fn __str__(&self) -> (text: String)
        ensures
            text@ == "board fen: "@ + before_space(text_of(self@)),
    {
        proof {
            use_type_invariant(self);
        }
        let whole = position_text(&self.pos);
        let placement = take_before_space(whole.as_str());
        let mut text = String::from_str("board fen: ");
        text.append(placement);
        text
    }

    /// The squares that hold a piece.
    pub fn occupied(&self) -> (bb: u64)
        ensures
            bb == self@.board.spec_occupied(),
    {
        self.pos.board.occupied()
    }

    /// The squares that hold a pawn.
    pub fn pawns(&self) -> (bb: u64)
        ensures
            bb == self@.board.pawns,
    {
        self.pos.board.pawns
    }

    /// The squares that hold a knight.
    pub fn knights(&self) -> (bb: u64)
        ensures
            bb == self@.board.knights,
    {
        self.pos.board.knights
    }

    /// The squares that hold a bishop.
    pub fn bishops(&self) -> (bb: u64)
        ensures
            bb == self@.board.bishops,
    {
        self.pos.board.bishops
    }

    /// The squares that hold a rook.
    pub fn rooks(&self) -> (bb: u64)
        ensures
            bb == self@.board.rooks,
    {
        self.pos.board.rooks
    }

    /// The squares that hold a queen.
    pub fn queens(&self) -> (bb: u64)
        ensures
            bb == self@.board.queens,
    {
        self.pos.board.queens
    }

    /// The squares that hold a king.
    pub fn kings(&self) -> (bb: u64)
        ensures
            bb == self@.board.kings,
    {
        self.pos.board.kings
    }

    /// The squares that hold a white piece.
    pub fn white(&self) -> (bb: u64)
        ensures
            bb == self@.board.white,
    {
        self.pos.board.white
    }

    /// The squares that hold a black piece.
    pub fn black(&self) -> (bb: u64)
        ensures
            bb == self@.board.black,
    {
        self.pos.board.black
    }

    /// The squares whose piece came from the promotion of a pawn.
    pub fn promoted(&self) -> (bb: u64)
        ensures
            bb == self@.promoted,
    {
        self.pos.promoted
    }

    /// The squares of the rooks that may still castle.
    pub fn castling_rights(&self) -> (bb: u64)
        ensures
            bb == self@.castling_rights,
    {
        self.pos.castling_rights
    }

    /// The en-passant target as a square number, or -1 if there is none.
    pub fn ep_square(&self) -> (sq: i32)
        ensures
            sq == match self@.ep_square {
                Some(s) => s as int,
                None => -1,
            },
    {
        match self.pos.ep_square {
            Some(s) => s as i32,
            None => -1,
        }
    }

    /// Plies since the last capture or pawn move.
    pub fn halfmove_clock(&self) -> (n: u32)
        ensures
            n == self@.halfmoves,
    {
        self.pos.halfmoves
    }

    /// The number of the move to come.
    pub fn fullmove_number(&self) -> (n: u32)
        ensures
            n == self@.fullmoves,
            n >= 1,
    {
        proof {
            use_type_invariant(self);
        }
        self.pos.fullmoves
    }

    /// The side to move: 1 for white, 0 for black.
    pub fn turn(&self) -> (t: u8)
        ensures
            t == self@.turn.spec_code(),
    {
        self.pos.turn.code()
    }

    /// The plies played since the game began; a count that does not fit is
    /// given as the largest number.
    pub fn ply(&self) -> (n: u32)
        ensures
            n == if self@.spec_ply() <= u32::MAX {
                self@.spec_ply()
            } else {
                u32::MAX as int
            },
    {
        proof {
            use_type_invariant(self);
        }
        let moves: u64 = (self.pos.fullmoves - 1) as u64;
        let plies: u64 = 2 * moves + if self.pos.turn.is_white() {
            0
        } else {
            1
        };
        if plies > u32::MAX as u64 {
            u32::MAX
        } else {
            plies as u32
        }
    }

    /// How many pieces stand on the board.
    pub fn number_of_pieces_on_the_board(&self) -> (n: u32)
        ensures
            n == count(self@.board.spec_occupied()),
    {
        self.pos.board.piece_count()
    }

    /// Whether the side (`true` for white) may still castle on the queen's
    /// side.
    pub fn has_queenside_castling_rights(&self, color: bool) -> (r: bool)
        ensures
            r == self@.spec_has_castling_right(Color::spec_from_white(color), false),
    {
        holds(
            self.pos.castling_rights,
            if color {
                A1
            } else {
                A8
            },
        )
    }

    /// Whether the side (`true` for white) may still castle on the king's
    /// side.
    pub fn has_kingside_castling_rights(&self, color: bool) -> (r: bool)
        ensures
            r == self@.spec_has_castling_right(Color::spec_from_white(color), true),
    {
        holds(
            self.pos.castling_rights,
            if color {
                H1
            } else {
                H8
            },
        )
    }

    /// The piece on a square, as whether it is white and the code of its
    /// role. There is none on an empty square, nor on a number that is no
    /// square.
    pub fn piece_at(&self, square_int: u32) -> (r: Option<(bool, u32)>)
        ensures
            r == if square_int < 64 {
                match self@.board.piece_on(square_int as u8) {
                    Some(p) => Some((p.color == Color::White, p.role.spec_code())),
                    None => None,
                }
            } else {
                None
            },
    {
        if square_int >= 64 {
            return None;
        }
        match self.pos.board.piece_at(square_int as u8) {
            Some(p) => Some((p.color.is_white(), p.role.code())),
            None => None,
        }
    }

    /// The pieces of the board, by square.
    pub fn piece_map(&self) -> (m: HashMap<u64, (u32, bool)>)
        ensures
            m@ == piece_map_of(self@.board),
    {
        broadcast use vstd::std_specs::hash::group_hash_axioms;

        let mut m: HashMap<u64, (u32, bool)> = HashMap::new();
        let mut sq: u8 = 0;
        while sq < 64
            invariant
                sq <= 64,
                m@ == Map::<u64, (u32, bool)>::new(
                    |k: u64| k < sq && self.pos.board.piece_on(k as u8).is_some(),
                    |k: u64|
                        (
                            self.pos.board.piece_on(k as u8).unwrap().role.spec_code(),
                            self.pos.board.piece_on(k as u8).unwrap().color == Color::White,
                        ),
                ),
            decreases 64 - sq,
        {
            let ghost before = m@;
            match self.pos.board.piece_at(sq) {
                Some(p) => {
                    m.insert(sq as u64, (p.role.code(), p.color.is_white()));
                },
                None => {},
            }
            sq = sq + 1;
            proof {
                assert(m@ =~= Map::<u64, (u32, bool)>::new(
                    |k: u64| k < sq && self.pos.board.piece_on(k as u8).is_some(),
                    |k: u64|
                        (
                            self.pos.board.piece_on(k as u8).unwrap().role.spec_code(),
                            self.pos.board.piece_on(k as u8).unwrap().color == Color::White,
                        ),
                ));
            }
        }
        proof {
            assert(m@ =~= piece_map_of(self@.board));
        }
        m
    }

    /// Whether any piece of the side (`true` for white) is attacked by a
    /// piece of the other side.
    pub fn is_attacked(&self, color: bool) -> (r: bool)
        ensures
            r == exists|sq: u8| sq < 64 && is_target(self@.board, Color::spec_from_white(color), sq),
    {
        proof {
            use_type_invariant(self);
        }
        let side = Color::from_white(color);
        let mut sq: u8 = 0;
        while sq < 64
            invariant
                sq <= 64,
                self.pos.board.wf(),
                side == Color::spec_from_white(color),
                forall|t: u8| t < sq ==> !is_target(self.pos.board, side, t),
            decreases 64 - sq,
        {
            match self.pos.board.piece_at(sq) {
                Some(p) => {
                    if p.color == side && self.pos.board.is_attacked(sq, side.other()) {
                        assert(is_target(self.pos.board, side, sq));
                        return true;
                    }
                },
                None => {},
            }
            sq = sq + 1;
        }
        false
    }

    /// The legal moves, each of them once and with its text.
    pub fn legal_moves(&self) -> (moves: Vec<MyMove>)
        ensures
            distinct(legal(self@)),
            moves.len() == legal(self@).len(),
            forall|k: int|
                0 <= k < moves.len() ==> (#[trigger] moves[k])@ == (
                    legal(self@)[k],
                    legal(self@)[k].spec_uci(),
                ),
    {
        proof {
            use_type_invariant(self);
            legal_moves_are_distinct(self.pos);
        }
        let plain = legal_moves(&self.pos);
        let mut moves: Vec<MyMove> = Vec::new();
        let mut i: usize = 0;
        while i < plain.len()
            invariant
                i <= plain.len(),
                plain@ == legal(self.pos),
                forall|k: int| 0 <= k < plain.len() ==> (#[trigger] plain[k]).wf(),
                moves.len() == i,
                forall|k: int| 0 <= k < i ==> (#[trigger] moves[k])@ == (plain[k], plain[k].spec_uci()),
            decreases plain.len() - i,
        {
            let m = plain[i];
            moves.push(MyMove::new_rust(m, m.uci()));
            i = i + 1;
        }
        moves
    }

    /// How the game stands. The answer is kept until the next move.
    pub fn outcome(&mut self) -> (o: Outcome)
        ensures
            o == outcome_of(old(self)@),
            final(self)@ == old(self)@,
    {
        proof {
            use_type_invariant(&*self);
        }
        match self.outcome {
            Some(o) => o,
            None => {
                let o = find_outcome(&self.pos);
                *self = MyChess { pos: self.pos, outcome: Some(o) };
                o
            },
        }
    }

    /// How the game stands, without keeping the answer.
    pub fn peek_outcome(&self) -> (o: Outcome)
        ensures
            o == outcome_of(self@),
    {
        proof {
            use_type_invariant(self);
        }
        match self.outcome {
            Some(o) => o,
            None => find_outcome(&self.pos),
        }
    }

    /// Whether the game has ended.
    pub fn is_game_over(&self) -> (r: bool)
        ensures
            r == outcome_of(self@).spec_is_over(),
    {
        self.peek_outcome().is_over()
    }

    /// The outcome as text: `1-0`, `0-1`, `1/2-1/2`, or `*` while the game
    /// goes on.
    pub fn result(&self) -> (text: String)
        ensures
            text@ == outcome_of(self@).spec_text(),
    {
        self.peek_outcome().text()
    }

    /// How the game stands: the piece placement, the plies played, the side
    /// to move and whether the game has ended.
    pub fn summary(&self) -> (t: (String, u32, u8, bool))
        ensures
            summary_of(self@, t),
    {
        (self.__str__(), self.ply(), self.turn(), self.is_game_over())
    }

    /// Plays a legal move; refuses any other move and then changes nothing.
    /// Whatever the answer, the game holds a position that can be played.
    pub fn play(&mut self, my_move_: &MyMove) -> (r: Result<(), ChessError>)
        ensures
            match play_result(old(self)@, my_move_@.0) {
                Ok(q) => r.is_ok() && final(self)@ == q,
                Err(e) => r == Err::<(), ChessError>(e) && final(self)@ == old(self)@,
            },
            valid(final(self)@),
    {
        proof {
            use_type_invariant(&*self);
        }
        match advance(&self.pos, my_move_.chess_move()) {
            Ok(q) => {
                *self = MyChess { pos: q, outcome: None };
                Ok(())
            },
            Err(e) => Err(e),
        }
    }

    /// Plays a legal move, as `play` does, and returns the record of what it
    /// changed.
    pub fn play_with_modifications(&mut self, my_move_: &MyMove) -> (r: Result<ChangeRecord, ChessError>)
        ensures
            match play_result(old(self)@, my_move_@.0) {
                Ok(q) => final(self)@ == q && (r matches Ok(rec) && rec@ == record_of(old(self)@, q)),
                Err(e) => final(self)@ == old(self)@ && (r matches Err(f) && f == e),
            },
            valid(final(self)@),
    {
        proof {
            use_type_invariant(&*self);
        }
        match advance(&self.pos, my_move_.chess_move()) {
            Ok(q) => {
                let before = find_ep_available(&self.pos);
                let after = find_ep_available(&q);
                let rec = diff(&self.pos, &q, before, after);
                *self = MyChess { pos: q, outcome: None };
                Ok(rec)
            },
            Err(e) => Err(e),
        }
    }

    /// Plays a legal move and tells how the game stands then: the piece
    /// placement, the plies played, the side to move and whether the game
    /// has ended.
    pub fn play_and_return(&mut self, my_move_: &MyMove) -> (r: Result<
        (String, u32, u8, bool),
        ChessError,
    >)
        ensures
            match play_result(old(self)@, my_move_@.0) {
                Ok(q) => final(self)@ == q && (r matches Ok(t) && summary_of(q, t)),
                Err(e) => final(self)@ == old(self)@ && (r matches Err(f) && f == e),
            },
            valid(final(self)@),
    {
        match self.play(my_move_) {
            Ok(()) => Ok(self.summary()),
            Err(e) => Err(e),
        }
    }

    /// Plays a legal move and tells how the game stands then, as
    /// `play_and_return` does, together with the record of what the move
    /// changed.
    pub fn play_and_return_modifications(&mut self, my_move_: &MyMove) -> (r: Result<
        ((String, u32, u8, bool), ChangeRecord),
        ChessError,
    >)
        ensures
            match play_result(old(self)@, my_move_@.0) {
                Ok(q) => final(self)@ == q && (r matches Ok(t) && summary_of(q, t.0) && t.1@ == record_of(
                    old(self)@,
                    q,
                )),
                Err(e) => final(self)@ == old(self)@ && (r matches Err(f) && f == e),
            },
            valid(final(self)@),
    {
        match self.play_with_modifications(my_move_) {
            Ok(rec) => Ok((self.summary(), rec)),
            Err(e) => Err(e),
        }
    }

    /// Plays a legal move and gives the sets of squares of the position
    /// reached: castling rights, pawns, knights, bishops, rooks, queens,
    /// kings, white pieces, black pieces; then the side to move, the
    /// en-passant target (-1 for none) and the promoted pieces.
    pub fn play_and_return_o(&mut self, my_move_: &MyMove) -> (r: Result<
        (u64, u64, u64, u64, u64, u64, u64, u64, u64, u8, i32, u64),
        ChessError,
    >)
        ensures
            match play_result(old(self)@, my_move_@.0) {
                Ok(q) => final(self)@ == q && (r matches Ok(t) && t == sets_of(q)),
                Err(e) => final(self)@ == old(self)@ && (r matches Err(f) && f == e),
            },
            valid(final(self)@),
    {
        match self.play(my_move_) {
            Ok(()) => Ok(
                (
                    self.castling_rights(),
                    self.pawns(),
                    self.knights(),
                    self.bishops(),
                    self.rooks(),
                    self.queens(),
                    self.kings(),
                    self.white(),
                    self.black(),
                    self.turn(),
                    self.ep_square(),
                    self.promoted(),
                ),
            ),
            Err(e) => Err(e),
        }
    }

    /// Takes back the move that a record describes. If what the record
    /// leads back to is no position that can be played, nothing changes.
    pub fn undo(&mut self, rec: &ChangeRecord) -> (r: Result<(), ChessError>)
        ensures
            valid(old(self)@.undone(rec@)) ==> r.is_ok() && final(self)@ == old(self)@.undone(rec@),
            !valid(old(self)@.undone(rec@)) ==> r == Err::<(), ChessError>(ChessError::IllegalPosition)
                && final(self)@ == old(self)@,
            valid(final(self)@),
    {
        proof {
            use_type_invariant(&*self);
        }
        let prev = self.pos.undo(rec);
        if !check_valid(&prev) {
            return Err(ChessError::IllegalPosition);
        }
        *self = MyChess { pos: prev, outcome: None };
        Ok(())
    }

    /// The fingerprint of the position.
    pub fn hash(&self) -> (h: u64)
        ensures
            h == fingerprint(self@),
    {
        proof {
            use_type_invariant(self);
        }
        hash(&self.pos, find_ep_available(&self.pos))
    }
}


/// Whether `t` tells how the game stands in a position: the piece placement
/// behind the words `board fen: `, the plies played (at most the largest
/// number), the code of the side to move and whether the game has ended.
pub open spec fn summary_of(p: Position, t: (String, u32, u8, bool)) -> bool {
    &&& t.0@ == "board fen: "@ + before_space(text_of(p))
    &&& t.1 == if p.spec_ply() <= u32::MAX {
        p.spec_ply()
    } else {
        u32::MAX as int
    }
    &&& t.2 == p.turn.spec_code()
    &&& t.3 == outcome_of(p).spec_is_over()
}

/// The sets of squares of a position in the order castling rights, pawns,
/// knights, bishops, rooks, queens, kings, white pieces, black pieces; then
/// the code of the side to move, the en-passant target (-1 for none) and the
/// promoted pieces.
pub open spec fn sets_of(p: Position) -> (u64, u64, u64, u64, u64, u64, u64, u64, u64, u8, i32, u64) {
    (
        p.castling_rights,
        p.board.pawns,
        p.board.knights,
        p.board.bishops,
        p.board.rooks,
        p.board.queens,
        p.board.kings,
        p.board.white,
        p.board.black,
        p.turn.spec_code(),
        match p.ep_square {
            Some(s) => s as i32,
            None => -1i32,
        },
        p.promoted,
    )
}

/// A move that was played can be taken back: taking back the record of the
/// move leads to a position that can be played, and it is the position from
/// which the move was played.
///
/// The one position left out is that of black to move at the largest move
/// number there is: the number cannot grow, so it cannot be taken back.
pub proof fn play_can_be_undone(p: Position, m: Move)
    requires
        valid(p),
        play_result(p, m).is_ok(),
        !(p.turn == Color::Black && p.fullmoves == u32::MAX),
    ensures
        ({
            let q = play_result(p, m).unwrap();
            q.undone(record_of(p, q)) == p
        }),
{
    play_is_by_legal_moves(p, m);
    lemma_legal_wf(p, m);
    move_can_be_taken_back(p, m);
}

/// The text of a position that can be played reads back as the position,
/// marks of promotion aside.
pub proof fn text_reads_back(p: Position)
    requires
        valid(p),
    ensures
        read_result(text_of(p)) == Ok::<Position, ChessError>(p.unmarked()),
{
    assert(p.unmarked().unmarked() == p.unmarked());
    assert(text_of(p.unmarked()) == text_of(p));
}

} // verus!
