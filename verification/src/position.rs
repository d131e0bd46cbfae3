//! The state of a game: the board and what else decides the moves to come.

use vstd::prelude::*;
use crate::bits::{bit, holds, member, put, square_bit};
use crate::board::Board;
use crate::moves::Move;
use crate::piece::{Color, Piece, Role};

verus! {

/// The square a1.
pub const A1: u8 = 0;

/// The square h1.
pub const H1: u8 = 7;

/// The square a8.
pub const A8: u8 = 56;

/// The square h8.
pub const H8: u8 = 63;

/// A position as plain values. It need not be one that can be played.
#[derive(Clone, Copy, Debug, PartialEq, Eq, Structural, Hash)]
pub struct Position {
    /// The pieces.
    pub board: Board,
    /// The squares whose piece came from the promotion of a pawn.
    pub promoted: u64,
    /// The side to move.
    pub turn: Color,
    /// The squares of the rooks that may still castle.
    pub castling_rights: u64,
    /// The square that a pawn has just passed over in advancing two squares.
    pub ep_square: Option<u8>,
    /// Plies since the last capture or pawn move.
    pub halfmoves: u32,
    /// The number of the move to come; it starts at 1 and grows after each
    /// move of black.
    pub fullmoves: u32,
}

impl Position {
    /// Whether the values describe a position at all: the board is a board,
    /// the en-passant target is a square, and the move number is at least 1.
    pub open spec fn wf(&self) -> bool {
        &&& self.board.wf()
        &&& (self.ep_square matches Some(s) ==> s < 64)
        &&& self.fullmoves >= 1
    }

    /// The position without its marks of promotion.
    pub open spec fn unmarked(self) -> Position {
        Position { promoted: 0, ..self }
    }

    /// The plies played since the game began, for a game that began with
    /// white's first move.
    pub open spec fn spec_ply(&self) -> int {
        2 * (self.fullmoves - 1) + if self.turn == Color::Black {
            1int
        } else {
            0int
        }
    }

    /// Whether the side may still castle with the rook on the king's side
    /// (or the queen's side).
    pub open spec fn spec_has_castling_right(&self, color: Color, king_side: bool) -> bool {
        member(self.castling_rights, corner(color, king_side))
    }

    /// Whether the values describe a position at all.
    pub fn is_well_formed(&self) -> (ok: bool)
        ensures
            ok == self.wf(),
    {
        let ep_ok = match self.ep_square {
            Some(s) => s < 64,
            None => true,
        };
        self.board.is_consistent() && ep_ok && self.fullmoves >= 1
    }
}

/// The squares of the rank on which the pieces of a color start.
pub open spec fn backrank(color: Color) -> u64 {
    match color {
        Color::White => 0xffu64,
        Color::Black => 0xff00_0000_0000_0000u64,
    }
}

/// Castling rights after a rook has left the square or was taken there:
/// on the first and the last rank the square loses its right.
pub open spec fn without_rook(rights: u64, sq: u8) -> u64 {
    if sq <= 7 || sq >= 56 {
        rights & !bit(sq)
    } else {
        rights
    }
}

fn discard_rook(rights: u64, sq: u8) -> (r: u64)
    requires
        sq < 64,
    ensures
        r == without_rook(rights, sq),
{
    if sq <= 7 || sq >= 56 {
        rights & !square_bit(sq)
    } else {
        rights
    }
}

fn discard_color(rights: u64, color: Color) -> (r: u64)
    ensures
        r == rights & !backrank(color),
{
    match color {
        Color::White => rights & !0xffu64,
        Color::Black => rights & !0xff00_0000_0000_0000u64,
    }
}

impl Position {
    /// The position after a move, by the rules of move application:
    /// what is taken leaves the board; the piece goes to its new square, a
    /// castling king and rook both do; a promoted pawn becomes the chosen
    /// piece and its square is marked as promoted; a king that moves gives up
    /// both castling rights, a rook that leaves its square or is taken there
    /// gives up that one; a pawn that advances two squares from its first
    /// rank leaves an en-passant target behind and every other move clears
    /// it; the halfmove clock starts again at a pawn move or a capture and
    /// counts on otherwise; the move number grows after black's move; the
    /// turn passes to the other side. The counters stop at the largest
    /// number they can hold.
    pub open spec fn applied(self, m: Move) -> Position {
        let us = self.turn;
        let halfmoves = if m.spec_is_zeroing() {
            0u32
        } else if self.halfmoves == u32::MAX {
            u32::MAX
        } else {
            (self.halfmoves + 1) as u32
        };
        let fullmoves = if us == Color::Black && self.fullmoves < u32::MAX {
            (self.fullmoves + 1) as u32
        } else {
            self.fullmoves
        };
        let turn = us.spec_other();
        match m {
            Move::Normal { role, from, capture, to, promotion } => {
                let ep_square = if role == Role::Pawn && to - from == 16 && from / 8 == 1 {
                    Some((from + 8) as u8)
                } else if role == Role::Pawn && from - to == 16 && from / 8 == 6 {
                    Some((from - 8) as u8)
                } else {
                    None
                };
                let moved = if role == Role::King {
                    self.castling_rights & !backrank(us)
                } else if role == Role::Rook {
                    without_rook(self.castling_rights, from)
                } else {
                    self.castling_rights
                };
                let castling_rights = if capture == Some(Role::Rook) {
                    without_rook(moved, to)
                } else {
                    moved
                };
                let piece = Piece {
                    color: us,
                    role: match promotion {
                        Some(p) => p,
                        None => role,
                    },
                };
                let board = self.board.spec_place(from, None).spec_place(to, Some(piece));
                let marked = member(self.promoted, from) || promotion.is_some();
                let promoted = put(put(self.promoted, bit(from), false), bit(to), marked);
                Position { board, promoted, turn, castling_rights, ep_square, halfmoves, fullmoves }
            },
            Move::Castle { king, rook } => {
                let rook_to = (rook / 8 * 8 + if rook < king {
                    3int
                } else {
                    5int
                }) as u8;
                let king_to = (king / 8 * 8 + if rook < king {
                    2int
                } else {
                    6int
                }) as u8;
                let board = self.board.spec_place(king, None).spec_place(rook, None).spec_place(
                    rook_to,
                    Some(Piece { color: us, role: Role::Rook }),
                ).spec_place(king_to, Some(Piece { color: us, role: Role::King }));
                Position {
                    board,
                    promoted: self.promoted,
                    turn,
                    castling_rights: self.castling_rights & !backrank(us),
                    ep_square: None,
                    halfmoves,
                    fullmoves,
                }
            },
            Move::EnPassant { from, to } => {
                let taken = (from / 8 * 8 + to % 8) as u8;
                let board = self.board.spec_place(taken, None).spec_place(from, None).spec_place(
                    to,
                    Some(Piece { color: us, role: Role::Pawn }),
                );
                Position {
                    board,
                    promoted: self.promoted,
                    turn,
                    castling_rights: self.castling_rights,
                    ep_square: None,
                    halfmoves,
                    fullmoves,
                }
            },
        }
    }

    /// Applies a move by the rules of move application. Whether the move is
    /// legal is not asked here.
    pub fn apply(&self, m: Move) -> (next: Position)
        requires
            self.wf(),
            m.wf(),
        ensures
            next == self.applied(m),
            next.wf(),
    {
        let us = self.turn;
        let halfmoves = if m.is_zeroing() {
            0
        } else if self.halfmoves == u32::MAX {
            u32::MAX
        } else {
            self.halfmoves + 1
        };
        let fullmoves = if us == Color::Black && self.fullmoves < u32::MAX {
            self.fullmoves + 1
        } else {
            self.fullmoves
        };
        let turn = us.other();
        let mut board = self.board;
        match m {
            Move::Normal { role, from, capture, to, promotion } => {
                let ep_square = if role == Role::Pawn && to >= from && to - from == 16 && from / 8 == 1 {
                    Some(from + 8)
                } else if role == Role::Pawn && from >= to && from - to == 16 && from / 8 == 6 {
                    Some(from - 8)
                } else {
                    None
                };
                let moved = if role == Role::King {
                    discard_color(self.castling_rights, us)
                } else if role == Role::Rook {
                    discard_rook(self.castling_rights, from)
                } else {
                    self.castling_rights
                };
                let castling_rights = if capture == Some(Role::Rook) {
                    discard_rook(moved, to)
                } else {
                    moved
                };
                let piece = Piece {
                    color: us,
                    role: match promotion {
                        Some(p) => p,
                        None => role,
                    },
                };
                board.place(from, None);
                board.place(to, Some(piece));
                let marked = holds(self.promoted, from) || promotion.is_some();
                let cleared = self.promoted & !square_bit(from);
                let promoted = if marked {
                    cleared | square_bit(to)
                } else {
                    cleared & !square_bit(to)
                };
                Position { board, promoted, turn, castling_rights, ep_square, halfmoves, fullmoves }
            },
            Move::Castle { king, rook } => {
                let rook_to = rook / 8 * 8 + if rook < king {
                    3
                } else {
                    5
                };
                let king_to = king / 8 * 8 + if rook < king {
                    2
                } else {
                    6
                };
                board.place(king, None);
                board.place(rook, None);
                board.place(rook_to, Some(Piece { color: us, role: Role::Rook }));
                board.place(king_to, Some(Piece { color: us, role: Role::King }));
                Position {
                    board,
                    promoted: self.promoted,
                    turn,
                    castling_rights: discard_color(self.castling_rights, us),
                    ep_square: None,
                    halfmoves,
                    fullmoves,
                }
            },
            Move::EnPassant { from, to } => {
                let taken = from / 8 * 8 + to % 8;
                board.place(taken, None);
                board.place(from, None);
                board.place(to, Some(Piece { color: us, role: Role::Pawn }));
                Position {
                    board,
                    promoted: self.promoted,
                    turn,
                    castling_rights: self.castling_rights,
                    ep_square: None,
                    halfmoves,
                    fullmoves,
                }
            },
        }
    }
}

/// The position after a sequence of moves, applied one after the other.
pub open spec fn played_out(p: Position, moves: Seq<Move>) -> Position
    decreases moves.len(),
{
    if moves.len() == 0 {
        p
    } else {
        played_out(p, moves.drop_last()).applied(moves.last())
    }
}

/// A move gives no castling right back: every right that the position has
/// after the move, it had before.
pub proof fn move_narrows_castling_rights(p: Position, m: Move)
    ensures
        p.applied(m).castling_rights & !p.castling_rights == 0,
{
    let r = p.castling_rights;
    let k = backrank(p.turn);
    assert(r & !r == 0) by (bit_vector);
    assert((r & !k) & !r == 0) by (bit_vector);
    match m {
        Move::Normal { role, from, capture, to, promotion } => {
            let f = bit(from);
            let t = bit(to);
            assert((r & !f) & !r == 0) by (bit_vector);
            assert((r & !t) & !r == 0) by (bit_vector);
            assert(((r & !f) & !t) & !r == 0) by (bit_vector);
            assert(((r & !k) & !t) & !r == 0) by (bit_vector);
        },
        _ => {},
    }
}

/// Castling rights only ever narrow: whatever moves are played, a right
/// that is gone after some of them is still gone after more of them.
pub proof fn castling_rights_only_narrow(p: Position, moves: Seq<Move>, i: int, j: int)
    requires
        0 <= i <= j <= moves.len(),
    ensures
        played_out(p, moves.take(j)).castling_rights & !played_out(p, moves.take(i)).castling_rights
            == 0,
    decreases j - i,
{
    let a = played_out(p, moves.take(i)).castling_rights;
    if i == j {
        assert(a & !a == 0) by (bit_vector);
    } else {
        castling_rights_only_narrow(p, moves, i, j - 1);
        let before = played_out(p, moves.take(j - 1));
        assert(moves.take(j).drop_last() =~= moves.take(j - 1));
        assert(moves.take(j).last() == moves[j - 1]);
        assert(played_out(p, moves.take(j)) == before.applied(moves[j - 1]));
        move_narrows_castling_rights(before, moves[j - 1]);
        let b = before.castling_rights;
        let c = played_out(p, moves.take(j)).castling_rights;
        assert(c & !a == 0) by (bit_vector)
            requires
                c & !b == 0,
                b & !a == 0,
        ;
    }
}

/// The corner where the rook of the given side starts.
pub open spec fn corner(color: Color, king_side: bool) -> u8 {
    match (color, king_side) {
        (Color::White, true) => H1,
        (Color::White, false) => A1,
        (Color::Black, true) => H8,
        (Color::Black, false) => A8,
    }
}

} // verus!
