//! What a move changed, and how to take it back.

use vstd::prelude::*;
use crate::bits::{bit, holds, lemma_put_member, lemma_same_squares, member, put, square_bit};
use crate::legal::ep_available;
use crate::board::Board;
use crate::moves::Move;
use crate::piece::{Color, Piece};
use crate::position::Position;

verus! {

/// What changed on one square: the piece that stood there and the piece
/// that stands there now, and whether each was marked as promoted.
#[derive(Clone, Copy, Debug, PartialEq, Eq, Structural, Hash)]
pub struct SquareChange {
    pub square: u8,
    pub before: Option<Piece>,
    pub after: Option<Piece>,
    pub promoted_before: bool,
    pub promoted_after: bool,
}

/// What a move changed: the squares whose occupant changed, and the
/// castling rights, the en-passant target and the halfmove clock as they
/// were, with the rights and the target as they are now. For each target it
/// also says whether a capture on it was available.
#[derive(Clone, Debug)]
pub struct ChangeRecord {
    pub changes: Vec<SquareChange>,
    pub castling_before: u64,
    pub castling_after: u64,
    pub ep_before: Option<u8>,
    pub ep_after: Option<u8>,
    pub ep_available_before: bool,
    pub ep_available_after: bool,
    pub halfmoves_before: u32,
}

/// A change record as a mathematical value.
pub struct Changes {
    pub squares: Seq<SquareChange>,
    pub castling_before: u64,
    pub castling_after: u64,
    pub ep_before: Option<u8>,
    pub ep_after: Option<u8>,
    pub ep_available_before: bool,
    pub ep_available_after: bool,
    pub halfmoves_before: u32,
}

impl View for ChangeRecord {
    type V = Changes;

    open spec fn view(&self) -> Changes {
        Changes {
            squares: self.changes@,
            castling_before: self.castling_before,
            castling_after: self.castling_after,
            ep_before: self.ep_before,
            ep_after: self.ep_after,
            ep_available_before: self.ep_available_before,
            ep_available_after: self.ep_available_after,
            halfmoves_before: self.halfmoves_before,
        }
    }
}

/// What differs between two positions on one square.
pub open spec fn change_at(p: Position, q: Position, sq: u8) -> SquareChange {
    SquareChange {
        square: sq,
        before: p.board.piece_on(sq),
        after: q.board.piece_on(sq),
        promoted_before: member(p.promoted, sq),
        promoted_after: member(q.promoted, sq),
    }
}

/// Whether two positions differ on a square, in the piece or in its mark.
pub open spec fn differs_at(p: Position, q: Position, sq: u8) -> bool {
    p.board.piece_on(sq) != q.board.piece_on(sq) || member(p.promoted, sq) != member(q.promoted, sq)
}

/// The changes on the squares below `n`, in the order of the squares.
pub open spec fn changes_upto(p: Position, q: Position, n: int) -> Seq<SquareChange>
    decreases n,
{
    if n <= 0 {
        Seq::empty()
    } else if differs_at(p, q, (n - 1) as u8) {
        changes_upto(p, q, n - 1).push(change_at(p, q, (n - 1) as u8))
    } else {
        changes_upto(p, q, n - 1)
    }
}

/// The record of what changed from the position `p` to the position `q`,
/// given whether an en-passant capture was available before and is
/// available now.
pub open spec fn changes_between(p: Position, q: Position, before: bool, after: bool) -> Changes {
    Changes {
        squares: changes_upto(p, q, 64),
        castling_before: p.castling_rights,
        castling_after: q.castling_rights,
        ep_before: p.ep_square,
        ep_after: q.ep_square,
        ep_available_before: before,
        ep_available_after: after,
        halfmoves_before: p.halfmoves,
    }
}

/// The record of what changed from the position `p` to the position `q`.
pub open spec fn record_of(p: Position, q: Position) -> Changes {
    changes_between(p, q, ep_available(p), ep_available(q))
}

/// The board and the marks of promotion with the given changes taken back,
/// one after the other. A change on a number that is no square is passed
/// over.
pub open spec fn restored(board: Board, promoted: u64, changes: Seq<SquareChange>) -> (Board, u64)
    decreases changes.len(),
{
    if changes.len() == 0 {
        (board, promoted)
    } else {
        let (b, marks) = restored(board, promoted, changes.drop_last());
        let c = changes.last();
        if c.square < 64 {
            (b.spec_place(c.square, c.before), put(marks, bit(c.square), c.promoted_before))
        } else {
            (b, marks)
        }
    }
}

impl Position {
    /// The position before the move that the record describes: the
    /// squares, the castling rights, the en-passant target and the halfmove
    /// clock are as the record has them, the turn goes back to the other
    /// side, and the move number goes back by one if black had moved.
    pub open spec fn undone(self, rec: Changes) -> Position {
        let (board, promoted) = restored(self.board, self.promoted, rec.squares);
        Position {
            board,
            promoted,
            turn: self.turn.spec_other(),
            castling_rights: rec.castling_before,
            ep_square: rec.ep_before,
            halfmoves: rec.halfmoves_before,
            fullmoves: if self.turn == Color::White && self.fullmoves > 1 {
                (self.fullmoves - 1) as u32
            } else {
                self.fullmoves
            },
        }
    }

    /// Takes back what a record describes.
    pub fn undo(&self, rec: &ChangeRecord) -> (prev: Position)
        requires
            self.wf(),
        ensures
            prev == self.undone(rec@),
            prev.board.wf(),
    {
        let mut board = self.board;
        let mut promoted = self.promoted;
        let mut i: usize = 0;
        while i < rec.changes.len()
            invariant
                i <= rec.changes.len(),
                board.wf(),
                (board, promoted) == restored(self.board, self.promoted, rec.changes@.take(i as int)),
            decreases rec.changes.len() - i,
        {
            let c = rec.changes[i];
            proof {
                let s = rec.changes@.take(i + 1);
                assert(s.drop_last() =~= rec.changes@.take(i as int));
                assert(s.last() == c);
            }
            if c.square < 64 {
                board.place(c.square, c.before);
                let b = square_bit(c.square);
                promoted = if c.promoted_before {
                    promoted | b
                } else {
                    promoted & !b
                };
            }
            i = i + 1;
        }
        proof {
            assert(rec.changes@.take(rec.changes.len() as int) =~= rec.changes@);
        }
        Position {
            board,
            promoted,
            turn: self.turn.other(),
            castling_rights: rec.castling_before,
            ep_square: rec.ep_before,
            halfmoves: rec.halfmoves_before,
            fullmoves: if self.turn == Color::White && self.fullmoves > 1 {
                self.fullmoves - 1
            } else {
                self.fullmoves
            },
        }
    }
}

/// Records what changed from one position to another, given whether an
/// en-passant capture was available before and is available now.
pub fn diff(p: &Position, q: &Position, before: bool, after: bool) -> (rec: ChangeRecord)
    requires
        p.wf(),
        q.wf(),
    ensures
        rec@ == changes_between(*p, *q, before, after),
{
    let mut changes: Vec<SquareChange> = Vec::new();
    let mut sq: u8 = 0;
    while sq < 64
        invariant
            sq <= 64,
            changes@ == changes_upto(*p, *q, sq as int),
        decreases 64 - sq,
    {
        let before = p.board.piece_at(sq);
        let after = q.board.piece_at(sq);
        let promoted_before = holds(p.promoted, sq);
        let promoted_after = holds(q.promoted, sq);
        if before != after || promoted_before != promoted_after {
            changes.push(SquareChange { square: sq, before, after, promoted_before, promoted_after });
        }
        sq = sq + 1;
    }
    ChangeRecord {
        changes,
        castling_before: p.castling_rights,
        castling_after: q.castling_rights,
        ep_before: p.ep_square,
        ep_after: q.ep_square,
        ep_available_before: before,
        ep_available_after: after,
        halfmoves_before: p.halfmoves,
    }
}

/// Taking back the changes on the squares below `n` gives, on those
/// squares, what `p` has there, and leaves the other squares as `q` has
/// them.
proof fn lemma_restored_upto(p: Position, q: Position, n: int)
    requires
        p.wf(),
        q.wf(),
        0 <= n <= 64,
    ensures
        ({
            let (b, marks) = restored(q.board, q.promoted, changes_upto(p, q, n));
            &&& b.wf()
            &&& forall|s: u8|
                s < 64 ==> #[trigger] b.piece_on(s) == (if s < n {
                    p.board.piece_on(s)
                } else {
                    q.board.piece_on(s)
                })
            &&& forall|s: u8|
                s < 64 ==> #[trigger] member(marks, s) == (if s < n {
                    member(p.promoted, s)
                } else {
                    member(q.promoted, s)
                })
        }),
    decreases n,
{
    if n > 0 {
        lemma_restored_upto(p, q, n - 1);
        let sq = (n - 1) as u8;
        let rest = changes_upto(p, q, n - 1);
        let (b0, m0) = restored(q.board, q.promoted, rest);
        let (b, marks) = restored(q.board, q.promoted, changes_upto(p, q, n));
        if differs_at(p, q, sq) {
            let c = change_at(p, q, sq);
            let all = rest.push(c);
            assert(all.drop_last() =~= rest);
            assert(all.last() == c);
            assert(changes_upto(p, q, n) == all);
            b0.lemma_place(sq, c.before);
            assert(b == b0.spec_place(sq, c.before));
            assert(marks == put(m0, bit(sq), c.promoted_before));
            assert forall|s: u8| s < 64 implies #[trigger] member(marks, s) == (if s < n {
                member(p.promoted, s)
            } else {
                member(q.promoted, s)
            }) by {
                lemma_put_member(m0, sq, c.promoted_before, s);
                assert(member(m0, s) == (if s < n - 1 {
                    member(p.promoted, s)
                } else {
                    member(q.promoted, s)
                }));
            }
            assert forall|s: u8| s < 64 implies #[trigger] b.piece_on(s) == (if s < n {
                p.board.piece_on(s)
            } else {
                q.board.piece_on(s)
            }) by {
                assert(b0.piece_on(s) == (if s < n - 1 {
                    p.board.piece_on(s)
                } else {
                    q.board.piece_on(s)
                }));
            }
        } else {
            assert(changes_upto(p, q, n) == rest);
            assert(b == b0 && marks == m0);
            assert forall|s: u8| s < 64 implies #[trigger] member(marks, s) == (if s < n {
                member(p.promoted, s)
            } else {
                member(q.promoted, s)
            }) by {
                assert(member(m0, s) == (if s < n - 1 {
                    member(p.promoted, s)
                } else {
                    member(q.promoted, s)
                }));
            }
            assert forall|s: u8| s < 64 implies #[trigger] b.piece_on(s) == (if s < n {
                p.board.piece_on(s)
            } else {
                q.board.piece_on(s)
            }) by {
                assert(b0.piece_on(s) == (if s < n - 1 {
                    p.board.piece_on(s)
                } else {
                    q.board.piece_on(s)
                }));
            }
        }
    } else {
        assert(changes_upto(p, q, n) =~= Seq::<SquareChange>::empty());
    }
}

/// Taking back the record of the change from `p` to `q` gives `p` again.
///
/// This holds of any two well-formed positions of which the second has the
/// other side to move and the move number that follows the first: one
/// more after black's move, the same after white's.
pub proof fn undo_restores(p: Position, q: Position)
    requires
        p.wf(),
        q.wf(),
        q.turn == p.turn.spec_other(),
        q.fullmoves == p.fullmoves + (if p.turn == Color::Black {
            1int
        } else {
            0int
        }),
    ensures
        q.undone(record_of(p, q)) == p,
{
    lemma_restored_upto(p, q, 64);
    let (b, marks) = restored(q.board, q.promoted, changes_upto(p, q, 64));
    b.lemma_same_pieces(p.board);
    lemma_same_squares(marks, p.promoted);
}

/// Applying a move to a well-formed position gives a well-formed position.
pub proof fn lemma_applied_wf(p: Position, m: Move)
    requires
        p.wf(),
        m.wf(),
    ensures
        p.applied(m).wf(),
{
    match m {
        Move::Normal { role, from, capture, to, promotion } => {
            p.board.lemma_place(from, None);
            let piece = Piece {
                color: p.turn,
                role: match promotion {
                    Some(r) => r,
                    None => role,
                },
            };
            p.board.spec_place(from, None).lemma_place(to, Some(piece));
        },
        Move::Castle { king, rook } => {
            let rook_to = (rook / 8 * 8 + if rook < king {
                3int
            } else {
                5int
            }) as u8;
            let king_to = (king / 8 * 8 + if rook < king {
                2int
            } else {
                6int
            }) as u8;
            let b1 = p.board.spec_place(king, None);
            p.board.lemma_place(king, None);
            let b2 = b1.spec_place(rook, None);
            b1.lemma_place(rook, None);
            let b3 = b2.spec_place(rook_to, Some(Piece { color: p.turn, role: crate::piece::Role::Rook }));
            b2.lemma_place(rook_to, Some(Piece { color: p.turn, role: crate::piece::Role::Rook }));
            b3.lemma_place(king_to, Some(Piece { color: p.turn, role: crate::piece::Role::King }));
        },
        Move::EnPassant { from, to } => {
            let taken = (from / 8 * 8 + to % 8) as u8;
            let b1 = p.board.spec_place(taken, None);
            p.board.lemma_place(taken, None);
            let b2 = b1.spec_place(from, None);
            b1.lemma_place(from, None);
            b2.lemma_place(to, Some(Piece { color: p.turn, role: crate::piece::Role::Pawn }));
        },
    }
}

/// Taking back the record of a move restores the position exactly.
///
/// The one position left out is that of black to move at the largest move
/// number there is: the number cannot grow, so it cannot be taken back.
pub proof fn move_can_be_taken_back(p: Position, m: Move)
    requires
        p.wf(),
        m.wf(),
        !(p.turn == Color::Black && p.fullmoves == u32::MAX),
    ensures
        p.applied(m).undone(record_of(p, p.applied(m))) == p,
{
    lemma_applied_wf(p, m);
    undo_restores(p, p.applied(m));
}

} // verus!
