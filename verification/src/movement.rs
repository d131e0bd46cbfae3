//! How the pieces move.
//!
//! Nothing here produces a move. The module says, of a move that is given,
//! whether it is one that the piece on its square can make on the board as
//! it stands: the piece is there, it moves as its role moves, nothing
//! stands in its way, and what it is said to take is what stands on the
//! square it goes to. From the same movement it says which pieces attack a
//! square: those that could take on it. Whether a move leaves the own king
//! attacked is asked elsewhere.

use vstd::prelude::*;
use crate::bits::{
    bit, holds, lemma_lowest, lemma_member_ops, lemma_put_member, lowest, member, put, square_bit,
};
use crate::board::Board;
use crate::moves::Move;
use crate::piece::{Color, Piece, Role};
use crate::position::Position;

verus! {

/// The file of a square, counted from 0.
pub open spec fn file_of(sq: u8) -> int {
    (sq % 8) as int
}

/// The rank of a square, counted from 0.
pub open spec fn rank_of(sq: u8) -> int {
    (sq / 8) as int
}

/// How far two files, or two ranks, are apart.
pub open spec fn gap(a: int, b: int) -> int {
    if a <= b {
        b - a
    } else {
        a - b
    }
}

/// The file, or the rank, that lies `k` steps from `a` in the direction of
/// `b`.
pub open spec fn toward(a: int, b: int, k: int) -> int {
    if a < b {
        a + k
    } else if a > b {
        a - k
    } else {
        a
    }
}

/// How many steps a piece takes from one square to another along a rank, a
/// file or a diagonal.
pub open spec fn span(from: u8, to: u8) -> int {
    let df = gap(file_of(from), file_of(to));
    let dr = gap(rank_of(from), rank_of(to));
    if df >= dr {
        df
    } else {
        dr
    }
}

/// Whether two squares lie on one rank, one file or one diagonal.
pub open spec fn aligned(from: u8, to: u8) -> bool {
    let df = gap(file_of(from), file_of(to));
    let dr = gap(rank_of(from), rank_of(to));
    df == dr || df == 0 || dr == 0
}

/// The square that lies `k` steps from `from` on the line to `to`.
pub open spec fn on_the_way(from: u8, to: u8, k: int) -> u8 {
    (toward(rank_of(from), rank_of(to), k) * 8 + toward(file_of(from), file_of(to), k)) as u8
}

/// Whether no square strictly between two aligned squares belongs to the
/// set `occupied`.
pub open spec fn path_open(occupied: u64, from: u8, to: u8) -> bool {
    forall|k: int| 0 < k < span(from, to) ==> !blocks(occupied, #[trigger] on_the_way(from, to, k))
}

/// Whether the square belongs to the set of occupied squares.
pub open spec fn blocks(occupied: u64, sq: u8) -> bool {
    sq < 64 && member(occupied, sq)
}

/// Whether every square strictly between two aligned squares is empty.
pub open spec fn path_clear(board: Board, from: u8, to: u8) -> bool {
    path_open(board.spec_occupied(), from, to)
}

/// Whether no square from `from` up to and including `to` is attacked by a
/// piece of the given color.
pub open spec fn path_safe(board: Board, from: u8, to: u8, by: Color) -> bool {
    forall|k: int| 0 <= k <= span(from, to) ==> !attacked(board, #[trigger] on_the_way(from, to, k), by)
}

/// The rank on which the pieces of a color start.
pub open spec fn first_rank(color: Color) -> int {
    match color {
        Color::White => 0,
        Color::Black => 7,
    }
}

/// The rank on which the pawns of a color start.
pub open spec fn pawn_rank(color: Color) -> int {
    match color {
        Color::White => 1,
        Color::Black => 6,
    }
}

/// The rank on which the pawns of a color are promoted.
pub open spec fn last_rank(color: Color) -> int {
    match color {
        Color::White => 7,
        Color::Black => 0,
    }
}

/// How many ranks a move takes a piece of the color forward.
pub open spec fn forward(color: Color, from: u8, to: u8) -> int {
    match color {
        Color::White => rank_of(to) - rank_of(from),
        Color::Black => rank_of(from) - rank_of(to),
    }
}

/// Whether a piece of the given role and color moves from one square to
/// another, where the squares of `occupied` stand in the way. A knight jumps; a king steps to a
/// neighbouring square; a bishop, a rook and a queen slide along their
/// lines over empty squares; a pawn takes one step diagonally forward, or,
/// where it takes nothing, advances one square or, from its first rank,
/// two squares over an empty one.
pub open spec fn moves_over(role: Role, color: Color, takes: bool, from: u8, to: u8, occupied: u64) -> bool {
    let df = gap(file_of(from), file_of(to));
    let dr = gap(rank_of(from), rank_of(to));
    match role {
        Role::Knight => (df == 1 && dr == 2) || (df == 2 && dr == 1),
        Role::King => df <= 1 && dr <= 1 && df + dr > 0,
        Role::Bishop => df == dr && df > 0 && path_open(occupied, from, to),
        Role::Rook => (df == 0) != (dr == 0) && path_open(occupied, from, to),
        Role::Queen => ((df == dr && df > 0) || (df == 0) != (dr == 0)) && path_open(occupied, from, to),
        Role::Pawn => if takes {
            df == 1 && forward(color, from, to) == 1
        } else {
            df == 0 && (forward(color, from, to) == 1 || (forward(color, from, to) == 2 && rank_of(from)
                == pawn_rank(color) && path_open(occupied, from, to)))
        },
    }
}

/// Whether a piece of the given role and color moves from one square to
/// another, on the board as it stands.
pub open spec fn moves_like(role: Role, color: Color, takes: bool, from: u8, to: u8, board: Board) -> bool {
    moves_over(role, color, takes, from, to, board.spec_occupied())
}

/// Whether the piece on the square `from` is of the given color and attacks
/// the square `target`: it could take there, by the movement of its role.
pub open spec fn attacks(board: Board, from: u8, target: u8, by: Color) -> bool {
    match board.piece_on(from) {
        Some(piece) => piece.color == by && moves_like(piece.role, by, true, from, target, board),
        None => false,
    }
}

/// Whether the piece on the square `from` is of the given color and attacks
/// the square `target`, where the squares of `occupied` stand in the way of
/// the sliding pieces.
pub open spec fn attacks_over(board: Board, from: u8, target: u8, by: Color, occupied: u64) -> bool {
    match board.piece_on(from) {
        Some(piece) => piece.color == by && moves_over(piece.role, by, true, from, target, occupied),
        None => false,
    }
}

/// The squares below `n` whose piece is of the given color and attacks the
/// square `target`.
pub open spec fn attack_set_upto(board: Board, target: u8, by: Color, occupied: u64, n: int) -> u64
    decreases n,
{
    if n <= 0 {
        0
    } else {
        put(
            attack_set_upto(board, target, by, occupied, n - 1),
            bit((n - 1) as u8),
            attacks_over(board, (n - 1) as u8, target, by, occupied),
        )
    }
}

/// The squares whose piece is of the given color and attacks the square
/// `target`, by the movement of its role.
pub open spec fn attack_set(board: Board, target: u8, by: Color, occupied: u64) -> u64 {
    attack_set_upto(board, target, by, occupied, 64)
}

/// A square belongs to the attack set exactly when its piece attacks.
pub proof fn lemma_attack_set_upto(board: Board, target: u8, by: Color, occupied: u64, n: int, s: u8)
    requires
        0 <= n <= 64,
        s < 64,
    ensures
        member(attack_set_upto(board, target, by, occupied, n), s) == (s < n && attacks_over(
            board,
            s,
            target,
            by,
            occupied,
        )),
    decreases n,
{
    if n > 0 {
        lemma_attack_set_upto(board, target, by, occupied, n - 1, s);
        lemma_put_member(
            attack_set_upto(board, target, by, occupied, n - 1),
            (n - 1) as u8,
            attacks_over(board, (n - 1) as u8, target, by, occupied),
            s,
        );
    } else {
        lemma_member_ops(0, 0, s);
    }
}

/// The attack set on the board as it stands holds a square exactly when a
/// piece attacks from it; so it is empty exactly when nothing attacks.
pub proof fn lemma_attack_set(board: Board, target: u8, by: Color)
    ensures
        forall|s: u8|
            s < 64 ==> member(attack_set(board, target, by, board.spec_occupied()), s) == #[trigger] attacks(
                board,
                s,
                target,
                by,
            ),
        attack_set(board, target, by, board.spec_occupied()) != 0 <==> attacked(board, target, by),
{
    let set = attack_set(board, target, by, board.spec_occupied());
    assert forall|s: u8| s < 64 implies member(set, s) == #[trigger] attacks(board, s, target, by) by {
        lemma_attack_set_upto(board, target, by, board.spec_occupied(), 64, s);
    }
    if set != 0 {
        lemma_lowest(set);
        assert(attacks(board, lowest(set), target, by));
    }
    if attacked(board, target, by) {
        let from = choose|from: u8| from < 64 && #[trigger] attacks(board, from, target, by);
        assert(member(set, from));
        lemma_member_ops(0, 0, from);
    }
}

/// Whether a piece of the given color attacks the square.
pub open spec fn attacked(board: Board, target: u8, by: Color) -> bool {
    exists|from: u8| from < 64 && #[trigger] attacks(board, from, target, by)
}

/// Whether a pawn may be promoted to the role.
pub open spec fn promotable(role: Role) -> bool {
    role == Role::Queen || role == Role::Rook || role == Role::Bishop || role == Role::Knight
}

/// Whether a move is one that the pieces on the board can make.
///
/// A normal move takes a piece of the side to move, of the role the move
/// names, from its square to a square that it reaches; it names what it
/// takes, which is a piece of the other side but no king, or nothing on an
/// empty square; it promotes exactly when a pawn reaches the last rank, and
/// then to a queen, a rook, a bishop or a knight. An en-passant capture
/// takes a pawn diagonally forward onto the en-passant target, which is
/// empty, past a pawn of the other side. Castling needs the right of the
/// rook, the king on the e-file of its first rank and the rook in a corner
/// of that rank with nothing between them, and no attack on any square from
/// where the king stands to where it goes: the g-file on the king's side,
/// the c-file on the queen's.
pub open spec fn fits(p: Position, m: Move) -> bool {
    let us = p.turn;
    match m {
        Move::Normal { role, from, capture, to, promotion } => {
            &&& from < 64
            &&& to < 64
            &&& p.board.piece_on(from) == Some(Piece { color: us, role })
            &&& match p.board.piece_on(to) {
                Some(t) => t.color != us && t.role != Role::King && capture == Some(t.role),
                None => capture.is_none(),
            }
            &&& moves_like(role, us, capture.is_some(), from, to, p.board)
            &&& match promotion {
                Some(r) => role == Role::Pawn && rank_of(to) == last_rank(us) && promotable(r),
                None => !(role == Role::Pawn && rank_of(to) == last_rank(us)),
            }
        },
        Move::EnPassant { from, to } => {
            &&& from < 64
            &&& to < 64
            &&& p.ep_square == Some(to)
            &&& p.board.piece_on(from) == Some(Piece { color: us, role: Role::Pawn })
            &&& p.board.piece_on(to).is_none()
            &&& gap(file_of(from), file_of(to)) == 1
            &&& forward(us, from, to) == 1
            &&& p.board.piece_on((from / 8 * 8 + to % 8) as u8) == Some(
                Piece { color: us.spec_other(), role: Role::Pawn },
            )
        },
        Move::Castle { king, rook } => {
            &&& king < 64
            &&& rook < 64
            &&& file_of(king) == 4
            &&& file_of(rook) == 0 || file_of(rook) == 7
            &&& rank_of(king) == first_rank(us)
            &&& rank_of(king) == rank_of(rook)
            &&& member(p.castling_rights, rook)
            &&& p.board.piece_on(king) == Some(Piece { color: us, role: Role::King })
            &&& p.board.piece_on(rook) == Some(Piece { color: us, role: Role::Rook })
            &&& path_clear(p.board, king, rook)
            &&& path_safe(p.board, king, m.spec_to(), us.spec_other())
        },
    }
}

/// Two moves that fit a position and agree in the square they leave, the
/// square they reach and the promotion are the same move.
pub proof fn lemma_fit_unique(p: Position, a: Move, b: Move)
    requires
        fits(p, a),
        fits(p, b),
        a.spec_from() == b.spec_from(),
        a.spec_to() == b.spec_to(),
        a.spec_promotion() == b.spec_promotion(),
    ensures
        a == b,
{
    match (a, b) {
        (Move::Castle { king, rook }, Move::Castle { king: king2, rook: rook2 }) => {
            assert(king == king2);
            assert((king < rook) == (king2 < rook2));
            assert(rook / 8 == rook2 / 8);
            assert(rook % 8 == rook2 % 8);
        },
        _ => {},
    }
}

fn steps(a: u8, b: u8) -> (d: u8)
    requires
        a < 8,
        b < 8,
    ensures
        d == gap(a as int, b as int),
        d < 8,
{
    if a <= b {
        b - a
    } else {
        a - b
    }
}

fn step_toward(a: u8, b: u8, k: u8) -> (r: u8)
    requires
        a < 8,
        b < 8,
        k <= gap(a as int, b as int),
    ensures
        r == toward(a as int, b as int, k as int),
        r < 8,
{
    if a < b {
        a + k
    } else if a > b {
        a - k
    } else {
        a
    }
}

/// The square that lies `k` steps from `from` on the line to `to`.
fn square_on_the_way(from: u8, to: u8, k: u8) -> (sq: u8)
    requires
        from < 64,
        to < 64,
        aligned(from, to),
        k <= span(from, to),
    ensures
        sq == on_the_way(from, to, k as int),
        sq < 64,
{
    let df = steps(from % 8, to % 8);
    let dr = steps(from / 8, to / 8);
    let r = step_toward(from / 8, to / 8, if dr == 0 {
        0
    } else {
        k
    });
    let f = step_toward(from % 8, to % 8, if df == 0 {
        0
    } else {
        k
    });
    r * 8 + f
}

/// Whether no square strictly between two aligned squares belongs to the
/// set `occupied`.
pub fn is_path_open(occupied: u64, from: u8, to: u8) -> (r: bool)
    requires
        from < 64,
        to < 64,
        aligned(from, to),
    ensures
        r == path_open(occupied, from, to),
{
    let df = steps(from % 8, to % 8);
    let dr = steps(from / 8, to / 8);
    let n = if df >= dr {
        df
    } else {
        dr
    };
    let mut k: u8 = 1;
    while k < n
        invariant
            1 <= k,
            n == span(from, to),
            from < 64,
            to < 64,
            aligned(from, to),
            forall|j: int| 0 < j < k ==> !blocks(occupied, #[trigger] on_the_way(from, to, j)),
        decreases n - k,
    {
        let sq = square_on_the_way(from, to, k);
        if holds(occupied, sq) {
            return false;
        }
        k = k + 1;
    }
    true
}

/// Whether every square strictly between two aligned squares is empty.
pub fn is_path_clear(board: &Board, from: u8, to: u8) -> (r: bool)
    requires
        from < 64,
        to < 64,
        aligned(from, to),
    ensures
        r == path_clear(*board, from, to),
{
    is_path_open(board.occupied(), from, to)
}

/// Whether a piece of the given color attacks the square.
pub fn is_attacked_by(board: &Board, target: u8, by: Color) -> (r: bool)
    requires
        target < 64,
    ensures
        r == attacked(*board, target, by),
{
    let mut from: u8 = 0;
    while from < 64
        invariant
            from <= 64,
            target < 64,
            forall|s: u8| s < from ==> !attacks(*board, s, target, by),
        decreases 64 - from,
    {
        match board.piece_at(from) {
            Some(piece) => {
                if piece.color == by && does_move_like(piece.role, by, true, from, target, board) {
                    assert(attacks(*board, from, target, by));
                    return true;
                }
            },
            None => {},
        }
        from = from + 1;
    }
    false
}

/// Whether no square from `from` up to and including `to` is attacked by a
/// piece of the given color.
pub fn is_path_safe(board: &Board, from: u8, to: u8, by: Color) -> (r: bool)
    requires
        from < 64,
        to < 64,
        aligned(from, to),
    ensures
        r == path_safe(*board, from, to, by),
{
    let df = steps(from % 8, to % 8);
    let dr = steps(from / 8, to / 8);
    let n = if df >= dr {
        df
    } else {
        dr
    };
    let mut k: u8 = 0;
    while k <= n
        invariant
            k <= n + 1,
            n == span(from, to),
            n < 8,
            from < 64,
            to < 64,
            aligned(from, to),
            forall|j: int| 0 <= j < k ==> !attacked(*board, #[trigger] on_the_way(from, to, j), by),
        decreases n + 1 - k,
    {
        let sq = square_on_the_way(from, to, k);
        if is_attacked_by(board, sq, by) {
            return false;
        }
        k = k + 1;
    }
    true
}

/// Whether a piece of the given role and color moves from one square to
/// another, where the squares of `occupied` stand in the way.
pub fn does_move_over(role: Role, color: Color, takes: bool, from: u8, to: u8, occupied: u64) -> (r: bool)
    requires
        from < 64,
        to < 64,
    ensures
        r == moves_over(role, color, takes, from, to, occupied),
{
    let df = steps(from % 8, to % 8);
    let dr = steps(from / 8, to / 8);
    match role {
        Role::Knight => (df == 1 && dr == 2) || (df == 2 && dr == 1),
        Role::King => df <= 1 && dr <= 1 && df + dr > 0,
        Role::Bishop => df == dr && df > 0 && is_path_open(occupied, from, to),
        Role::Rook => (df == 0) != (dr == 0) && is_path_open(occupied, from, to),
        Role::Queen => ((df == dr && df > 0) || (df == 0) != (dr == 0)) && is_path_open(occupied, from, to),
        Role::Pawn => {
            let ahead = match color {
                Color::White => to / 8 > from / 8,
                Color::Black => from / 8 > to / 8,
            };
            let start = match color {
                Color::White => 1,
                Color::Black => 6,
            };
            if takes {
                df == 1 && ahead && dr == 1
            } else {
                df == 0 && ahead && (dr == 1 || (dr == 2 && from / 8 == start && is_path_open(
                    occupied,
                    from,
                    to,
                )))
            }
        },
    }
}

/// Whether a piece of the given role and color moves from one square to
/// another, on the board as it stands.
pub fn does_move_like(role: Role, color: Color, takes: bool, from: u8, to: u8, board: &Board) -> (r: bool)
    requires
        from < 64,
        to < 64,
    ensures
        r == moves_like(role, color, takes, from, to, *board),
{
    does_move_over(role, color, takes, from, to, board.occupied())
}

/// The squares whose piece is of the given color and attacks the square, by
/// the movement of its role, where the squares of `occupied` stand in the
/// way of the sliding pieces.
pub fn attackers_by_movement(board: &Board, target: u8, by: Color, occupied: u64) -> (bb: u64)
    requires
        target < 64,
    ensures
        bb == attack_set(*board, target, by, occupied),
{
    let mut bb: u64 = 0;
    let mut from: u8 = 0;
    while from < 64
        invariant
            from <= 64,
            target < 64,
            bb == attack_set_upto(*board, target, by, occupied, from as int),
        decreases 64 - from,
    {
        let attacks = match board.piece_at(from) {
            Some(piece) => piece.color == by && does_move_over(piece.role, by, true, from, target, occupied),
            None => false,
        };
        let b = square_bit(from);
        bb = if attacks {
            bb | b
        } else {
            bb & !b
        };
        from = from + 1;
    }
    bb
}

/// Whether a move is one that the pieces on the board can make.
pub fn check_fits(p: &Position, m: Move) -> (r: bool)
    requires
        p.wf(),
    ensures
        r == fits(*p, m),
{
    let us = p.turn;
    let last = match us {
        Color::White => 7,
        Color::Black => 0,
    };
    match m {
        Move::Normal { role, from, capture, to, promotion } => {
            if from >= 64 || to >= 64 {
                return false;
            }
            if p.board.piece_at(from) != Some(Piece { color: us, role }) {
                return false;
            }
            let target_ok = match p.board.piece_at(to) {
                Some(t) => t.color != us && t.role != Role::King && capture == Some(t.role),
                None => capture.is_none(),
            };
            if !target_ok {
                return false;
            }
            if !does_move_like(role, us, capture.is_some(), from, to, &p.board) {
                return false;
            }
            match promotion {
                Some(r) => role == Role::Pawn && to / 8 == last && (r == Role::Queen || r == Role::Rook || r
                    == Role::Bishop || r == Role::Knight),
                None => !(role == Role::Pawn && to / 8 == last),
            }
        },
        Move::EnPassant { from, to } => {
            if from >= 64 || to >= 64 {
                return false;
            }
            let ahead = match us {
                Color::White => to / 8 > from / 8,
                Color::Black => from / 8 > to / 8,
            };
            p.ep_square == Some(to) && p.board.piece_at(from) == Some(Piece { color: us, role: Role::Pawn })
                && p.board.piece_at(to).is_none() && steps(from % 8, to % 8) == 1 && ahead && steps(
                from / 8,
                to / 8,
            ) == 1 && p.board.piece_at(from / 8 * 8 + to % 8) == Some(
                Piece { color: us.other(), role: Role::Pawn },
            )
        },
        Move::Castle { king, rook } => {
            let first = match us {
                Color::White => 0,
                Color::Black => 7,
            };
            if king >= 64 || rook >= 64 || king % 8 != 4 || king / 8 != first || king / 8 != rook / 8 {
                return false;
            }
            if rook % 8 != 0 && rook % 8 != 7 {
                return false;
            }
            if !holds(p.castling_rights, rook) {
                return false;
            }
            if p.board.piece_at(king) != Some(Piece { color: us, role: Role::King }) {
                return false;
            }
            if p.board.piece_at(rook) != Some(Piece { color: us, role: Role::Rook }) {
                return false;
            }
            if !is_path_clear(&p.board, king, rook) {
                return false;
            }
            is_path_safe(&p.board, king, m.to(), us.other())
        },
    }
}

} // verus!
