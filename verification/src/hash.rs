//! The fingerprint of a position.
//!
//! The fingerprint is the exclusive-or of one key for each piece on its
//! square, one for white to move, one for each castling right, and one for
//! the file of the en-passant target where a capture on it is available. It
//! leaves the two move counters and the marks of promotion out.

use vstd::prelude::*;
use crate::bits::{holds, member};
use crate::board::Board;
use crate::piece::{Color, Piece};
use crate::position::{Position, A1, A8, H1, H8};
use crate::legal::ep_available;
use crate::record::{change_at, changes_upto, differs_at, record_of, ChangeRecord, Changes, SquareChange};
use crate::rules::{key_of_piece, piece_key};

verus! {

/// The key for white to move.
pub const WHITE_TO_MOVE: u64 = 0xf8d6_26aa_af27_8509;

/// The key of a castling right.
pub open spec fn spec_castling_key(color: Color, king_side: bool) -> u64 {
    match (color, king_side) {
        (Color::White, true) => 0x31d7_1dce_64b2_c310,
        (Color::White, false) => 0xf165_b587_df89_8190,
        (Color::Black, true) => 0xa57e_6339_dd2c_f3a0,
        (Color::Black, false) => 0x1ef6_e6db_b196_1ec9,
    }
}

/// The key of a castling right.
#[verifier::when_used_as_spec(spec_castling_key)]
pub fn castling_key(color: Color, king_side: bool) -> (key: u64)
    ensures
        key == spec_castling_key(color, king_side),
{
    match (color, king_side) {
        (Color::White, true) => 0x31d7_1dce_64b2_c310,
        (Color::White, false) => 0xf165_b587_df89_8190,
        (Color::Black, true) => 0xa57e_6339_dd2c_f3a0,
        (Color::Black, false) => 0x1ef6_e6db_b196_1ec9,
    }
}

/// The key of the file of an en-passant target, the files counted from 0.
pub open spec fn spec_ep_file_key(file: u8) -> u64 {
    if file == 0 {
        0x70cc_73d9_0bc2_6e24
    } else if file == 1 {
        0xe21a_6b35_df0c_3ad7
    } else if file == 2 {
        0x003a_93d8_b280_6962
    } else if file == 3 {
        0x1c99_ded3_3cb8_90a1
    } else if file == 4 {
        0xcf31_45de_0add_4289
    } else if file == 5 {
        0xd0e4_427a_5514_fb72
    } else if file == 6 {
        0x77c6_21cc_9fb3_a483
    } else {
        0x67a3_4dac_4356_550b
    }
}

/// The key of the file of an en-passant target.
#[verifier::when_used_as_spec(spec_ep_file_key)]
pub fn ep_file_key(file: u8) -> (key: u64)
    ensures
        key == spec_ep_file_key(file),
{
    if file == 0 {
        0x70cc_73d9_0bc2_6e24
    } else if file == 1 {
        0xe21a_6b35_df0c_3ad7
    } else if file == 2 {
        0x003a_93d8_b280_6962
    } else if file == 3 {
        0x1c99_ded3_3cb8_90a1
    } else if file == 4 {
        0xcf31_45de_0add_4289
    } else if file == 5 {
        0xd0e4_427a_5514_fb72
    } else if file == 6 {
        0x77c6_21cc_9fb3_a483
    } else {
        0x67a3_4dac_4356_550b
    }
}

/// The key of what stands on a square; zero for an empty square.
pub open spec fn square_key(piece: Option<Piece>, sq: u8) -> u64 {
    match piece {
        Some(p) => piece_key(sq, p.role, p.color),
        None => 0,
    }
}

/// The keys of the pieces on the squares below `n`, combined.
pub open spec fn pieces_hash(board: Board, n: int) -> u64
    decreases n,
{
    if n <= 0 {
        0
    } else {
        pieces_hash(board, n - 1) ^ square_key(board.piece_on((n - 1) as u8), (n - 1) as u8)
    }
}

/// The keys of the castling rights a position has, combined.
pub open spec fn rights_hash(rights: u64) -> u64 {
    (if member(rights, H1) {
        spec_castling_key(Color::White, true)
    } else {
        0
    }) ^ (if member(rights, A1) {
        spec_castling_key(Color::White, false)
    } else {
        0
    }) ^ (if member(rights, H8) {
        spec_castling_key(Color::Black, true)
    } else {
        0
    }) ^ (if member(rights, A8) {
        spec_castling_key(Color::Black, false)
    } else {
        0
    })
}

/// The key of the en-passant target: that of its file where a capture on
/// it is available, zero otherwise.
pub open spec fn ep_hash(ep: Option<u8>, available: bool) -> u64 {
    match ep {
        Some(s) => if available {
            spec_ep_file_key(s % 8)
        } else {
            0
        },
        None => 0,
    }
}

/// The key of the side to move.
pub open spec fn turn_hash(turn: Color) -> u64 {
    match turn {
        Color::White => WHITE_TO_MOVE,
        Color::Black => 0,
    }
}

/// The fingerprint of a position, given whether an en-passant capture is
/// available in it.
pub open spec fn mixed(p: Position, available: bool) -> u64 {
    pieces_hash(p.board, 64) ^ turn_hash(p.turn) ^ rights_hash(p.castling_rights) ^ ep_hash(
        p.ep_square,
        available,
    )
}

/// The fingerprint of a position.
pub open spec fn fingerprint(p: Position) -> u64 {
    mixed(p, ep_available(p))
}

/// What the changes on squares do to a fingerprint: for each change, the
/// key of what stood on the square and the key of what stands there now.
pub open spec fn squares_delta(changes: Seq<SquareChange>) -> u64
    decreases changes.len(),
{
    if changes.len() == 0 {
        0
    } else {
        let c = changes.last();
        squares_delta(changes.drop_last()) ^ (if c.square < 64 {
            square_key(c.before, c.square) ^ square_key(c.after, c.square)
        } else {
            0
        })
    }
}

/// The fingerprint after the change that a record describes, from the
/// fingerprint before it.
pub open spec fn updated(old_hash: u64, rec: Changes) -> u64 {
    old_hash ^ squares_delta(rec.squares) ^ WHITE_TO_MOVE ^ rights_hash(rec.castling_before)
        ^ rights_hash(rec.castling_after) ^ ep_hash(rec.ep_before, rec.ep_available_before) ^ ep_hash(
        rec.ep_after,
        rec.ep_available_after,
    )
}

fn key_of_square(piece: Option<Piece>, sq: u8) -> (key: u64)
    requires
        sq < 64,
    ensures
        key == square_key(piece, sq),
{
    match piece {
        Some(p) => key_of_piece(sq, p.role, p.color),
        None => 0,
    }
}

fn hash_rights(rights: u64) -> (h: u64)
    ensures
        h == rights_hash(rights),
{
    (if holds(rights, H1) {
        castling_key(Color::White, true)
    } else {
        0
    }) ^ (if holds(rights, A1) {
        castling_key(Color::White, false)
    } else {
        0
    }) ^ (if holds(rights, H8) {
        castling_key(Color::Black, true)
    } else {
        0
    }) ^ (if holds(rights, A8) {
        castling_key(Color::Black, false)
    } else {
        0
    })
}

fn hash_ep(ep: Option<u8>, available: bool) -> (h: u64)
    ensures
        h == ep_hash(ep, available),
{
    match ep {
        Some(s) => if available {
            ep_file_key(s % 8)
        } else {
            0
        },
        None => 0,
    }
}

/// Computes the fingerprint of a position, given whether an en-passant
/// capture is available in it.
pub fn hash(p: &Position, available: bool) -> (h: u64)
    requires
        p.wf(),
    ensures
        h == mixed(*p, available),
{
    let mut h: u64 = 0;
    let mut sq: u8 = 0;
    while sq < 64
        invariant
            sq <= 64,
            h == pieces_hash(p.board, sq as int),
        decreases 64 - sq,
    {
        h = h ^ key_of_square(p.board.piece_at(sq), sq);
        sq = sq + 1;
    }
    let t = match p.turn {
        Color::White => WHITE_TO_MOVE,
        Color::Black => 0,
    };
    h ^ t ^ hash_rights(p.castling_rights) ^ hash_ep(p.ep_square, available)
}

/// Computes the fingerprint after a change from the fingerprint before it
/// and the record of the change.
pub fn incremental_update(old_hash: u64, rec: &ChangeRecord) -> (h: u64)
    ensures
        h == updated(old_hash, rec@),
{
    let mut d: u64 = 0;
    let mut i: usize = 0;
    while i < rec.changes.len()
        invariant
            i <= rec.changes.len(),
            d == squares_delta(rec.changes@.take(i as int)),
        decreases rec.changes.len() - i,
    {
        let c = rec.changes[i];
        proof {
            let s = rec.changes@.take(i + 1);
            assert(s.drop_last() =~= rec.changes@.take(i as int));
            assert(s.last() == c);
        }
        d = d ^ (if c.square < 64 {
            key_of_square(c.before, c.square) ^ key_of_square(c.after, c.square)
        } else {
            0
        });
        i = i + 1;
    }
    proof {
        assert(rec.changes@.take(rec.changes.len() as int) =~= rec.changes@);
    }
    old_hash ^ d ^ WHITE_TO_MOVE ^ hash_rights(rec.castling_before) ^ hash_rights(rec.castling_after)
        ^ hash_ep(rec.ep_before, rec.ep_available_before) ^ hash_ep(rec.ep_after, rec.ep_available_after)
}

/// The keys of the pieces of `q` are those of `p` combined with what the
/// changes between the two do.
proof fn lemma_pieces_delta(p: Position, q: Position, n: int)
    requires
        0 <= n <= 64,
    ensures
        pieces_hash(q.board, n) == pieces_hash(p.board, n) ^ squares_delta(changes_upto(p, q, n)),
    decreases n,
{
    if n > 0 {
        lemma_pieces_delta(p, q, n - 1);
        let sq = (n - 1) as u8;
        let a = pieces_hash(p.board, n - 1);
        let d = squares_delta(changes_upto(p, q, n - 1));
        let kp = square_key(p.board.piece_on(sq), sq);
        let kq = square_key(q.board.piece_on(sq), sq);
        if differs_at(p, q, sq) {
            let c = change_at(p, q, sq);
            let all = changes_upto(p, q, n - 1).push(c);
            assert(all.drop_last() =~= changes_upto(p, q, n - 1));
            assert(all.last() == c);
            assert(squares_delta(all) == d ^ (kp ^ kq));
            assert((a ^ d) ^ kq == (a ^ kp) ^ (d ^ (kp ^ kq))) by (bit_vector);
        } else {
            assert((a ^ d) ^ kq == (a ^ kp) ^ d) by (bit_vector)
                requires
                    kp == kq,
            ;
        }
    } else {
        assert(changes_upto(p, q, n) =~= Seq::<SquareChange>::empty());
        assert(0u64 == 0u64 ^ 0u64) by (bit_vector);
    }
}

/// Updating the fingerprint of a position from the record of a change gives
/// the fingerprint of the position after the change.
///
/// This holds of any two positions of which the second has the other side
/// to move, and so of every move.
pub proof fn update_gives_fingerprint(p: Position, q: Position)
    requires
        q.turn == p.turn.spec_other(),
    ensures
        updated(fingerprint(p), record_of(p, q)) == fingerprint(q),
{
    lemma_pieces_delta(p, q, 64);
    let hp = pieces_hash(p.board, 64);
    let hq = pieces_hash(q.board, 64);
    let d = squares_delta(changes_upto(p, q, 64));
    let tp = turn_hash(p.turn);
    let tq = turn_hash(q.turn);
    let w = WHITE_TO_MOVE;
    let rp = rights_hash(p.castling_rights);
    let rq = rights_hash(q.castling_rights);
    let ep = ep_hash(p.ep_square, ep_available(p));
    let eq = ep_hash(q.ep_square, ep_available(q));
    assert(tq == tp ^ w) by {
        assert(w ^ w == 0 && 0u64 ^ w == w) by (bit_vector);
    }
    assert((hp ^ tp ^ rp ^ ep) ^ d ^ w ^ rp ^ rq ^ ep ^ eq == hq ^ tq ^ rq ^ eq) by (bit_vector)
        requires
            hq == hp ^ d,
            tq == tp ^ w,
    ;
}

/// Updating the fingerprint of a position from the record of a move gives
/// the fingerprint of the position after the move.
pub proof fn update_follows_move(p: Position, m: crate::moves::Move)
    ensures
        updated(fingerprint(p), record_of(p, p.applied(m))) == fingerprint(p.applied(m)),
{
    update_gives_fingerprint(p, p.applied(m));
}

} // verus!
