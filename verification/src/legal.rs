//! The legal moves of a position.
//!
//! The rules propose the moves. The library keeps a proposal only if it is
//! a move that the pieces on the board can make and if, in the position that
//! the library computes by applying it, the mover's king is not attacked.
//! Before a game moves on to that position, the library holds it against the
//! position that the rules reach by the same move.

use vstd::prelude::*;
use vstd::utf8::is_ascii_chars;
use crate::bits::{count, count_squares, lemma_lowest, lowest};
use crate::board::Board;
use crate::error::ChessError;
use crate::movement::{attacked, check_fits, fits};
use crate::moves::{Move, RawMove};
use crate::piece::Color;
use crate::position::Position;
use crate::rules::{
    attackers_of, is_playable, legal_moves_of, list_moves, play_nth, playable, played, position_text,
    read_position, text_of, text_position,
};
use crate::text::{check_placement, count_fields, field_count, placement_fault};

verus! {

/// Whether the text of a position reads back as the position: it is
/// ASCII, has six fields and a sound piece placement, and the rules read
/// from it the very values it was written from, marks of promotion aside.
pub open spec fn reads_back(p: Position) -> bool {
    &&& is_ascii_chars(text_of(p))
    &&& field_count(text_of(p)) == 6
    &&& placement_fault(text_of(p)).is_none()
    &&& text_position(text_of(p)) == Some(p.unmarked())
}

/// Whether plain values describe a position that can be played: they are
/// well formed, each side has exactly one king, the king of the side that
/// is not to move is not attacked, the rules accept the position as one of
/// standard chess, and its text reads back as the position.
pub open spec fn valid(p: Position) -> bool {
    &&& p.wf()
    &&& count(p.board.kings & p.board.white) == 1
    &&& count(p.board.kings & p.board.black) == 1
    &&& !in_check(p.board, p.turn.spec_other())
    &&& playable(text_of(p))
    &&& reads_back(p)
}

/// The moves that the rules propose for a position.
pub open spec fn candidates(p: Position) -> Seq<RawMove> {
    legal_moves_of(text_of(p))
}

/// The pieces that attack the king of a color, as the rules report them;
/// none where there is no such king.
pub open spec fn king_attackers(board: Board, color: Color) -> u64 {
    let kings = board.kings & board.spec_by_color(color);
    if kings == 0 {
        0
    } else {
        attackers_of(board, lowest(kings), color.spec_other(), board.spec_occupied())
    }
}

/// Whether the king of a color is attacked: a piece of the other color
/// could take it, by the movement of its role, or the rules report a piece
/// that attacks it.
pub open spec fn in_check(board: Board, color: Color) -> bool {
    let kings = board.kings & board.spec_by_color(color);
    kings != 0 && (attacked(board, lowest(kings), color.spec_other()) || king_attackers(board, color) != 0)
}

/// The move of the proposal with the given index, if the library accepts
/// it: the codes are a move, the move is one that the pieces on the board
/// can make, and the mover's king is not attacked in the position after it.
pub open spec fn accepted(p: Position, i: int) -> Option<Move> {
    if 0 <= i < candidates(p).len() {
        match Move::spec_decode(candidates(p)[i]) {
            Some(m) => if fits(p, m) && !in_check(p.applied(m).board, p.turn) {
                Some(m)
            } else {
                None
            },
            None => None,
        }
    } else {
        None
    }
}

/// The accepted moves among the first `n` proposals, in their order, each
/// of them once: a proposal that repeats an accepted move is passed over.
pub open spec fn legal_upto(p: Position, n: int) -> Seq<Move>
    decreases n,
{
    if n <= 0 {
        Seq::empty()
    } else {
        match accepted(p, n - 1) {
            Some(m) => if legal_upto(p, n - 1).contains(m) {
                legal_upto(p, n - 1)
            } else {
                legal_upto(p, n - 1).push(m)
            },
            None => legal_upto(p, n - 1),
        }
    }
}

/// The legal moves of a position.
pub open spec fn legal(p: Position) -> Seq<Move> {
    legal_upto(p, candidates(p).len() as int)
}

/// Whether an en-passant capture is among the first `n` moves.
pub open spec fn has_en_passant(moves: Seq<Move>, n: int) -> bool
    decreases n,
{
    if n <= 0 {
        false
    } else {
        has_en_passant(moves, n - 1) || moves[n - 1] is EnPassant
    }
}

/// Whether an en-passant capture is available: the position has an
/// en-passant target and a legal move that takes there.
pub open spec fn ep_available(p: Position) -> bool {
    p.ep_square.is_some() && has_en_passant(legal(p), legal(p).len() as int)
}

/// The index of the first among the first `n` proposals that is accepted as
/// the given move.
pub open spec fn first_index_upto(p: Position, m: Move, n: int) -> Option<int>
    decreases n,
{
    if n <= 0 {
        None
    } else {
        match first_index_upto(p, m, n - 1) {
            Some(i) => Some(i),
            None => if accepted(p, n - 1) == Some(m) {
                Some(n - 1)
            } else {
                None
            },
        }
    }
}

/// The index of the first proposal that is accepted as the given move.
pub open spec fn first_index(p: Position, m: Move) -> Option<int> {
    first_index_upto(p, m, candidates(p).len() as int)
}

/// What playing a move leads to: the position after it, or the reason why
/// the game does not move on. A move that is not legal is refused as
/// illegal. A legal move leads to the position that applying it gives,
/// provided that the rules reach the same position by it and that this
/// position can be played; otherwise the position is refused as illegal.
pub open spec fn play_result(p: Position, m: Move) -> Result<Position, ChessError> {
    match first_index(p, m) {
        None => Err(ChessError::IllegalMove),
        Some(i) => if played(text_of(p), i) == text_of(p.applied(m)) && valid(p.applied(m)) {
            Ok(p.applied(m))
        } else {
            Err(ChessError::IllegalPosition)
        },
    }
}

/// A move is among the first accepted ones exactly when one of the first
/// proposals is accepted as that move.
pub proof fn lemma_legal_upto(p: Position, n: int, m: Move)
    requires
        0 <= n,
    ensures
        legal_upto(p, n).contains(m) <==> exists|i: int| 0 <= i < n && #[trigger] accepted(p, i) == Some(m),
        legal_upto(p, n).len() <= n,
    decreases n,
{
    if n > 0 {
        lemma_legal_upto(p, n - 1, m);
        let rest = legal_upto(p, n - 1);
        match accepted(p, n - 1) {
            Some(a) => {
                if !rest.contains(a) {
                    let all = rest.push(a);
                    assert(all == legal_upto(p, n));
                    if a == m {
                        assert(all[all.len() - 1] == m);
                        assert(all.contains(m));
                    } else {
                        if all.contains(m) {
                            let k = choose|k: int| 0 <= k < all.len() && all[k] == m;
                            assert(rest[k] == m);
                            assert(rest.contains(m));
                        }
                        if rest.contains(m) {
                            let k = choose|k: int| 0 <= k < rest.len() && rest[k] == m;
                            assert(all[k] == m);
                        }
                    }
                }
            },
            None => {},
        }
        if exists|i: int| 0 <= i < n && #[trigger] accepted(p, i) == Some(m) {
            let i = choose|i: int| 0 <= i < n && #[trigger] accepted(p, i) == Some(m);
            if i < n - 1 {
                assert(legal_upto(p, n - 1).contains(m));
            }
        }
    } else {
        assert(legal_upto(p, n) =~= Seq::<Move>::empty());
    }
}

/// Whether no move occurs twice in a list.
pub open spec fn distinct(moves: Seq<Move>) -> bool {
    forall|i: int, j: int| 0 <= i < j < moves.len() ==> moves[i] != moves[j]
}

/// No move occurs twice among the accepted moves.
pub proof fn lemma_legal_upto_distinct(p: Position, n: int)
    ensures
        distinct(legal_upto(p, n)),
    decreases n,
{
    if n > 0 {
        lemma_legal_upto_distinct(p, n - 1);
        let rest = legal_upto(p, n - 1);
        match accepted(p, n - 1) {
            Some(a) => {
                if !rest.contains(a) {
                    let all = rest.push(a);
                    assert forall|i: int, j: int| 0 <= i < j < all.len() implies all[i] != all[j] by {
                        if j == rest.len() {
                            assert(rest[i] == all[i]);
                            assert(rest.contains(all[i]));
                        } else {
                            assert(rest[i] == all[i] && rest[j] == all[j]);
                        }
                    }
                }
            },
            None => {},
        }
    }
}

/// No move occurs twice among the legal moves of a position.
pub proof fn legal_moves_are_distinct(p: Position)
    ensures
        distinct(legal(p)),
{
    lemma_legal_upto_distinct(p, candidates(p).len() as int);
}

/// The first index of a move is the least index at which the move is
/// accepted, and there is none exactly when the move is accepted nowhere.
pub proof fn lemma_first_index_upto(p: Position, m: Move, n: int)
    requires
        0 <= n,
    ensures
        match first_index_upto(p, m, n) {
            Some(i) => 0 <= i < n && accepted(p, i) == Some(m) && forall|j: int|
                0 <= j < i ==> #[trigger] accepted(p, j) != Some(m),
            None => forall|j: int| 0 <= j < n ==> #[trigger] accepted(p, j) != Some(m),
        },
    decreases n,
{
    if n > 0 {
        lemma_first_index_upto(p, m, n - 1);
    }
}

/// Where a move is accepted at an index and at none before it, that index
/// is its first index in every longer range.
proof fn lemma_first_index_at(p: Position, m: Move, i: int, n: int)
    requires
        0 <= i < n,
        first_index_upto(p, m, i).is_none(),
        accepted(p, i) == Some(m),
    ensures
        first_index_upto(p, m, n) == Some(i),
    decreases n,
{
    if n > i + 1 {
        lemma_first_index_at(p, m, i, n - 1);
    }
}

/// A move has a first index exactly when it is legal.
pub proof fn lemma_first_index(p: Position, m: Move)
    ensures
        first_index(p, m).is_some() <==> legal(p).contains(m),
        first_index(p, m) matches Some(i) ==> 0 <= i < candidates(p).len() && accepted(p, i) == Some(m),
{
    let n = candidates(p).len() as int;
    lemma_first_index_upto(p, m, n);
    lemma_legal_upto(p, n, m);
}

/// The squares of a legal move are squares.
pub proof fn lemma_legal_wf(p: Position, m: Move)
    requires
        legal(p).contains(m),
    ensures
        m.wf(),
{
    lemma_legal_upto(p, candidates(p).len() as int, m);
}

/// Every legal move is one that the pieces on the board can make, and
/// leaves the king of the side that moved not attacked.
pub proof fn legal_moves_are_sound(p: Position, m: Move)
    requires
        legal(p).contains(m),
    ensures
        fits(p, m),
        !in_check(p.applied(m).board, p.turn),
{
    lemma_legal_upto(p, candidates(p).len() as int, m);
}

/// A game moves on only by a legal move, and then to the position that
/// applying the move gives.
pub proof fn play_is_by_legal_moves(p: Position, m: Move)
    ensures
        play_result(p, m) matches Ok(q) ==> legal(p).contains(m) && q == p.applied(m) && valid(q),
        play_result(p, m) == Err::<Position, ChessError>(ChessError::IllegalMove) <==> !legal(p).contains(
            m,
        ),
{
    lemma_first_index(p, m);
}

/// Whether the king of a color is attacked.
pub(crate) fn is_in_check(board: &Board, color: Color) -> (r: bool)
    requires
        board.wf(),
    ensures
        r == in_check(*board, color),
{
    let kings = board.kings & board.by_color(color);
    if kings == 0 {
        false
    } else {
        proof {
            lemma_lowest(kings);
            vstd::std_specs::bits::axiom_u64_trailing_zeros(kings);
        }
        let sq = kings.trailing_zeros() as u8;
        board.is_attacked(sq, color.other())
    }
}

/// Whether plain values describe a position that can be played.
pub(crate) fn check_valid(p: &Position) -> (ok: bool)
    ensures
        ok == valid(*p),
{
    if !p.is_well_formed() {
        return false;
    }
    if count_squares(p.board.kings & p.board.white) != 1 || count_squares(p.board.kings & p.board.black)
        != 1 {
        return false;
    }
    if is_in_check(&p.board, p.turn.other()) {
        return false;
    }
    let text = position_text(p);
    if !is_playable(text.as_str()) {
        return false;
    }
    if !text.as_str().is_ascii() {
        return false;
    }
    if count_fields(text.as_str()) != 6 {
        return false;
    }
    if check_placement(text.as_str()).is_some() {
        return false;
    }
    match read_position(text.as_str()) {
        Some(r) => r.board == p.board && r.promoted == 0 && r.turn == p.turn && r.castling_rights
            == p.castling_rights && r.ep_square == p.ep_square && r.halfmoves == p.halfmoves
            && r.fullmoves == p.fullmoves,
        None => false,
    }
}

/// Whether an en-passant capture is available.
pub(crate) fn find_ep_available(pos: &Position) -> (r: bool)
    requires
        valid(*pos),
    ensures
        r == ep_available(*pos),
{
    if pos.ep_square.is_none() {
        return false;
    }
    let moves = legal_moves(pos);
    let mut found = false;
    let mut i: usize = 0;
    while i < moves.len()
        invariant
            i <= moves.len(),
            found == has_en_passant(moves@, i as int),
        decreases moves.len() - i,
    {
        match moves[i] {
            Move::EnPassant { .. } => {
                found = true;
            },
            _ => {},
        }
        i = i + 1;
    }
    found
}

/// Tries the proposal with the given index.
pub(crate) fn try_candidate(pos: &Position, cands: &Vec<RawMove>, i: usize) -> (r: Option<Move>)
    requires
        pos.wf(),
        cands@ == candidates(*pos),
        i < cands.len(),
    ensures
        r == accepted(*pos, i as int),
        r matches Some(m) ==> m.wf(),
{
    let m = match Move::decode(&cands[i]) {
        None => {
            return None;
        },
        Some(m) => m,
    };
    if !check_fits(pos, m) {
        return None;
    }
    let q = pos.apply(m);
    if is_in_check(&q.board, pos.turn) {
        return None;
    }
    Some(m)
}

/// Lists the legal moves of a position.
pub(crate) fn legal_moves(pos: &Position) -> (moves: Vec<Move>)
    requires
        valid(*pos),
    ensures
        moves@ == legal(*pos),
        forall|k: int| 0 <= k < moves.len() ==> (#[trigger] moves[k]).wf(),
{
    let text = position_text(pos);
    let cands = list_moves(text.as_str());
    let mut moves: Vec<Move> = Vec::new();
    let mut i: usize = 0;
    while i < cands.len()
        invariant
            i <= cands.len(),
            pos.wf(),
            cands@ == candidates(*pos),
            moves@ == legal_upto(*pos, i as int),
            forall|k: int| 0 <= k < moves.len() ==> (#[trigger] moves[k]).wf(),
        decreases cands.len() - i,
    {
        match try_candidate(pos, &cands, i) {
            Some(m) => {
                if !holds_move(&moves, m) {
                    moves.push(m);
                }
            },
            None => {},
        }
        i = i + 1;
    }
    moves
}

/// Whether a list holds a move.
pub(crate) fn holds_move(moves: &Vec<Move>, m: Move) -> (r: bool)
    ensures
        r == moves@.contains(m),
{
    let mut k: usize = 0;
    while k < moves.len()
        invariant
            k <= moves.len(),
            forall|j: int| 0 <= j < k ==> moves[j] != m,
        decreases moves.len() - k,
    {
        if moves[k] == m {
            return true;
        }
        k = k + 1;
    }
    false
}

/// Plays a move: finds it among the proposals, applies it, and holds the
/// result against the position that the rules reach.
pub(crate) fn advance(pos: &Position, m: Move) -> (r: Result<Position, ChessError>)
    requires
        valid(*pos),
    ensures
        r == play_result(*pos, m),
{
    let text = position_text(pos);
    let cands = list_moves(text.as_str());
    let mut i: usize = 0;
    while i < cands.len()
        invariant
            i <= cands.len(),
            valid(*pos),
            text@ == text_of(*pos),
            cands@ == candidates(*pos),
            first_index_upto(*pos, m, i as int).is_none(),
        decreases cands.len() - i,
    {
        if try_candidate(pos, &cands, i) == Some(m) {
            let q = pos.apply(m);
            let next = play_nth(text.as_str(), i);
            let q_text = position_text(&q);
            proof {
                lemma_first_index_at(*pos, m, i as int, cands.len() as int);
            }
            return if next == q_text && check_valid(&q) {
                Ok(q)
            } else {
                Err(ChessError::IllegalPosition)
            };
        }
        i = i + 1;
    }
    Err(ChessError::IllegalMove)
}

} // verus!
