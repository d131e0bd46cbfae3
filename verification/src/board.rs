//! The board: which piece stands on which square.

use vstd::prelude::*;
use crate::bits::{
    bit, count, count_squares, holds, lemma_member_ops, lemma_put_member, lemma_same_squares, member, put,
    square_bit,
};
use crate::error::{ChessError, EncodingFault};
use crate::movement::{
    attack_set, attacked, attackers_by_movement, attacks_over, lemma_attack_set, lemma_attack_set_upto,
};
use crate::piece::{Color, Piece, Role};
use crate::rules::{attackers, attackers_of};

verus! {

/// Whether eight sets of squares describe a board: no square has two roles
/// or two colors, and a square has a role exactly when it has a color.
pub open spec fn consistent(
    pawns: u64,
    knights: u64,
    bishops: u64,
    rooks: u64,
    queens: u64,
    kings: u64,
    white: u64,
    black: u64,
) -> bool {
    &&& white & black == 0
    &&& pawns & knights == 0
    &&& pawns & bishops == 0
    &&& pawns & rooks == 0
    &&& pawns & queens == 0
    &&& pawns & kings == 0
    &&& knights & bishops == 0
    &&& knights & rooks == 0
    &&& knights & queens == 0
    &&& knights & kings == 0
    &&& bishops & rooks == 0
    &&& bishops & queens == 0
    &&& bishops & kings == 0
    &&& rooks & queens == 0
    &&& rooks & kings == 0
    &&& queens & kings == 0
    &&& pawns | knights | bishops | rooks | queens | kings == white | black
}

/// Taking the squares of `m` out of every set, and then adding them to at
/// most one role and one color together, keeps a board a board.
proof fn lemma_put_consistent(
    p: u64,
    n: u64,
    b: u64,
    r: u64,
    q: u64,
    k: u64,
    w: u64,
    l: u64,
    m: u64,
    fp: bool,
    fn_: bool,
    fb: bool,
    fr: bool,
    fq: bool,
    fk: bool,
    fw: bool,
    fl: bool,
)
    by (bit_vector)
    requires
        consistent(p, n, b, r, q, k, w, l),
        !(fw && fl),
        !(fp && fn_) && !(fp && fb) && !(fp && fr) && !(fp && fq) && !(fp && fk),
        !(fn_ && fb) && !(fn_ && fr) && !(fn_ && fq) && !(fn_ && fk),
        !(fb && fr) && !(fb && fq) && !(fb && fk),
        !(fr && fq) && !(fr && fk),
        !(fq && fk),
        (fw || fl) == (fp || fn_ || fb || fr || fq || fk),
    ensures
        consistent(
            put(p, m, fp),
            put(n, m, fn_),
            put(b, m, fb),
            put(r, m, fr),
            put(q, m, fq),
            put(k, m, fk),
            put(w, m, fw),
            put(l, m, fl),
        ),
{
}

/// The pieces on the board, as one set of squares for each role and each
/// color.
#[derive(Clone, Copy, Debug, PartialEq, Eq, Structural, Hash)]
pub struct Board {
    pub pawns: u64,
    pub knights: u64,
    pub bishops: u64,
    pub rooks: u64,
    pub queens: u64,
    pub kings: u64,
    pub white: u64,
    pub black: u64,
}


impl Board {
    /// Whether the eight sets describe a board.
    pub open spec fn wf(&self) -> bool {
        consistent(
            self.pawns,
            self.knights,
            self.bishops,
            self.rooks,
            self.queens,
            self.kings,
            self.white,
            self.black,
        )
    }

    /// The squares that hold a piece.
    pub open spec fn spec_occupied(&self) -> u64 {
        self.white | self.black
    }

    /// The squares that hold a piece of the given role.
    pub open spec fn spec_by_role(&self, role: Role) -> u64 {
        match role {
            Role::Pawn => self.pawns,
            Role::Knight => self.knights,
            Role::Bishop => self.bishops,
            Role::Rook => self.rooks,
            Role::Queen => self.queens,
            Role::King => self.kings,
        }
    }

    /// The squares that hold a piece of the given color.
    pub open spec fn spec_by_color(&self, color: Color) -> u64 {
        match color {
            Color::White => self.white,
            Color::Black => self.black,
        }
    }

    /// The role found on a square that is occupied.
    pub open spec fn role_on(&self, sq: u8) -> Role {
        if member(self.pawns, sq) {
            Role::Pawn
        } else if member(self.knights, sq) {
            Role::Knight
        } else if member(self.bishops, sq) {
            Role::Bishop
        } else if member(self.rooks, sq) {
            Role::Rook
        } else if member(self.queens, sq) {
            Role::Queen
        } else {
            Role::King
        }
    }

    /// The piece on a square, if there is one. No piece stands on a number
    /// that is no square.
    pub open spec fn piece_on(&self, sq: u8) -> Option<Piece> {
        if sq < 64 && member(self.spec_occupied(), sq) {
            Some(Piece { color: Color::spec_from_white(member(self.white, sq)), role: self.role_on(sq) })
        } else {
            None
        }
    }

    /// On a board, a square belongs to the set of a role (of a color)
    /// exactly when the piece on it has that role (that color).
    pub proof fn lemma_squares(&self, sq: u8)
        requires
            self.wf(),
            sq < 64,
        ensures
            forall|role: Role|
                member(#[trigger] self.spec_by_role(role), sq) == (self.piece_on(sq) matches Some(p)
                    && p.role == role),
            forall|color: Color|
                member(#[trigger] self.spec_by_color(color), sq) == (self.piece_on(sq) matches Some(p)
                    && p.color == color),
            member(self.spec_occupied(), sq) == self.piece_on(sq).is_some(),
    {
        lemma_member_ops(self.white, self.black, sq);
        lemma_member_ops(self.pawns, self.knights, sq);
        lemma_member_ops(self.pawns, self.bishops, sq);
        lemma_member_ops(self.pawns, self.rooks, sq);
        lemma_member_ops(self.pawns, self.queens, sq);
        lemma_member_ops(self.pawns, self.kings, sq);
        lemma_member_ops(self.knights, self.bishops, sq);
        lemma_member_ops(self.knights, self.rooks, sq);
        lemma_member_ops(self.knights, self.queens, sq);
        lemma_member_ops(self.knights, self.kings, sq);
        lemma_member_ops(self.bishops, self.rooks, sq);
        lemma_member_ops(self.bishops, self.queens, sq);
        lemma_member_ops(self.bishops, self.kings, sq);
        lemma_member_ops(self.rooks, self.queens, sq);
        lemma_member_ops(self.rooks, self.kings, sq);
        lemma_member_ops(self.queens, self.kings, sq);
        let u1 = self.pawns | self.knights;
        let u2 = u1 | self.bishops;
        let u3 = u2 | self.rooks;
        let u4 = u3 | self.queens;
        lemma_member_ops(u1, self.bishops, sq);
        lemma_member_ops(u2, self.rooks, sq);
        lemma_member_ops(u3, self.queens, sq);
        lemma_member_ops(u4, self.kings, sq);
        assert forall|role: Role|
            member(#[trigger] self.spec_by_role(role), sq) == (self.piece_on(sq) matches Some(p)
                && p.role == role) by {
            match role {
                Role::Pawn => {},
                Role::Knight => {},
                Role::Bishop => {},
                Role::Rook => {},
                Role::Queen => {},
                Role::King => {},
            }
        }
        assert forall|color: Color|
            member(#[trigger] self.spec_by_color(color), sq) == (self.piece_on(sq) matches Some(p)
                && p.color == color) by {
            match color {
                Color::White => {},
                Color::Black => {},
            }
        }
    }

    /// The board without pieces.
    pub fn empty() -> (b: Board)
        ensures
            b.wf(),
            forall|sq: u8| b.piece_on(sq).is_none(),
            b.spec_occupied() == 0,
    {
        let b = Board { pawns: 0, knights: 0, bishops: 0, rooks: 0, queens: 0, kings: 0, white: 0, black: 0 };
        proof {
            assert(consistent(0, 0, 0, 0, 0, 0, 0, 0)) by (bit_vector);
            assert(0u64 | 0u64 == 0) by (bit_vector);
            assert forall|sq: u8| b.piece_on(sq).is_none() by {
                if sq < 64 {
                    lemma_member_ops(0, 0, sq);
                }
            }
        }
        b
    }

    /// Whether the eight sets describe a board.
    pub fn is_consistent(&self) -> (ok: bool)
        ensures
            ok == self.wf(),
    {
        self.white & self.black == 0 && self.pawns & self.knights == 0 && self.pawns & self.bishops
            == 0 && self.pawns & self.rooks == 0 && self.pawns & self.queens == 0 && self.pawns
            & self.kings == 0 && self.knights & self.bishops == 0 && self.knights & self.rooks == 0
            && self.knights & self.queens == 0 && self.knights & self.kings == 0 && self.bishops
            & self.rooks == 0 && self.bishops & self.queens == 0 && self.bishops & self.kings == 0
            && self.rooks & self.queens == 0 && self.rooks & self.kings == 0 && self.queens
            & self.kings == 0 && self.pawns | self.knights | self.bishops | self.rooks | self.queens
            | self.kings == self.white | self.black
    }

    /// The squares that hold a piece.
    #[verifier::when_used_as_spec(spec_occupied)]
    pub fn occupied(&self) -> (bb: u64)
        ensures
            bb == self.spec_occupied(),
    {
        self.white | self.black
    }

    /// The squares that hold a piece of the given role.
    #[verifier::when_used_as_spec(spec_by_role)]
    pub fn by_role(&self, role: Role) -> (bb: u64)
        ensures
            bb == self.spec_by_role(role),
    {
        match role {
            Role::Pawn => self.pawns,
            Role::Knight => self.knights,
            Role::Bishop => self.bishops,
            Role::Rook => self.rooks,
            Role::Queen => self.queens,
            Role::King => self.kings,
        }
    }

    /// The squares that hold a piece of the given color.
    #[verifier::when_used_as_spec(spec_by_color)]
    pub fn by_color(&self, color: Color) -> (bb: u64)
        ensures
            bb == self.spec_by_color(color),
    {
        match color {
            Color::White => self.white,
            Color::Black => self.black,
        }
    }

    /// The squares that hold a piece of the role with the given code; none
    /// for a code that is no role.
    pub fn by_role_code(&self, code: u32) -> (bb: u64)
        ensures
            bb == match Role::spec_from_code(code as int) {
                Some(role) => self.spec_by_role(role),
                None => 0,
            },
    {
        match Role::from_code(code) {
            Some(role) => self.by_role(role),
            None => 0,
        }
    }

    /// The squares that hold a white piece (`white`) or a black one.
    pub fn by_white(&self, white: bool) -> (bb: u64)
        ensures
            bb == self.spec_by_color(Color::spec_from_white(white)),
    {
        self.by_color(Color::from_white(white))
    }

    /// The piece on a square, if there is one.
    pub fn piece_at(&self, sq: u8) -> (p: Option<Piece>)
        ensures
            p == self.piece_on(sq),
    {
        if sq >= 64 {
            return None;
        }
        if !holds(self.white | self.black, sq) {
            return None;
        }
        let role = if holds(self.pawns, sq) {
            Role::Pawn
        } else if holds(self.knights, sq) {
            Role::Knight
        } else if holds(self.bishops, sq) {
            Role::Bishop
        } else if holds(self.rooks, sq) {
            Role::Rook
        } else if holds(self.queens, sq) {
            Role::Queen
        } else {
            Role::King
        };
        Some(Piece { color: Color::from_white(holds(self.white, sq)), role })
    }

    /// The pieces of one color that attack a square, where the sliding
    /// pieces are stopped by the squares of `occupied`: every piece of that
    /// color that could take on the square, by the movement of its role,
    /// together with the pieces that the rules report. The set is empty for
    /// a number that is no square.
    pub open spec fn spec_attacks_to(&self, sq: u8, by: Color, occupied: u64) -> u64 {
        if sq < 64 {
            attackers_of(*self, sq, by, occupied) | attack_set(*self, sq, by, occupied)
        } else {
            0
        }
    }

    /// The pieces of one color that attack a square, where the sliding
    /// pieces are stopped by the squares of `occupied`. The set holds pieces
    /// of that color only, and among them every piece that could take on the
    /// square by the movement of its role.
    pub fn attacks_to(&self, sq: u8, by: Color, occupied: u64) -> (bb: u64)
        requires
            self.wf(),
        ensures
            bb == self.spec_attacks_to(sq, by, occupied),
            bb & !self.spec_by_color(by) == 0,
            forall|from: u8|
                sq < 64 && from < 64 && #[trigger] attacks_over(*self, from, sq, by, occupied) ==> member(
                    bb,
                    from,
                ),
    {
        if sq >= 64 {
            proof {
                let c = self.spec_by_color(by);
                assert(0u64 & !c == 0) by (bit_vector);
            }
            return 0;
        }
        let reported = attackers(self, sq, by, occupied);
        let moving = attackers_by_movement(self, sq, by, occupied);
        proof {
            let c = self.spec_by_color(by);
            assert forall|s: u8| s < 64 implies member(moving & !c, s) == member(0, s) by {
                lemma_attack_set_upto(*self, sq, by, occupied, 64, s);
                lemma_member_ops(moving, c, s);
                lemma_member_ops(0, 0, s);
                self.lemma_squares(s);
            }
            lemma_same_squares(moving & !c, 0);
            assert((reported | moving) & !c == 0) by (bit_vector)
                requires
                    reported & !c == 0,
                    moving & !c == 0,
            ;
            assert forall|from: u8|
                from < 64 && #[trigger] attacks_over(*self, from, sq, by, occupied) implies member(
                reported | moving,
                from,
            ) by {
                lemma_attack_set_upto(*self, sq, by, occupied, 64, from);
                lemma_member_ops(reported, moving, from);
            }
        }
        reported | moving
    }

    /// Whether a piece of the given color attacks the square, on the board
    /// as it stands.
    pub open spec fn spec_is_attacked(&self, sq: u8, by: Color) -> bool {
        self.spec_attacks_to(sq, by, self.spec_occupied()) != 0
    }

    /// A square is attacked exactly when a piece could take there, by the
    /// movement of its role, or the rules report a piece that attacks it.
    pub proof fn lemma_is_attacked(&self, sq: u8, by: Color)
        requires
            sq < 64,
        ensures
            self.spec_is_attacked(sq, by) == (attacked(*self, sq, by) || attackers_of(
                *self,
                sq,
                by,
                self.spec_occupied(),
            ) != 0),
    {
        let reported = attackers_of(*self, sq, by, self.spec_occupied());
        let moving = attack_set(*self, sq, by, self.spec_occupied());
        lemma_attack_set(*self, sq, by);
        assert((reported | moving != 0) == (reported != 0 || moving != 0)) by (bit_vector);
    }

    /// Whether a piece of the given color attacks the square, on the board
    /// as it stands.
    pub fn is_attacked(&self, sq: u8, by: Color) -> (r: bool)
        requires
            self.wf(),
        ensures
            r == self.spec_is_attacked(sq, by),
            sq < 64 ==> r == (attacked(*self, sq, by) || attackers_of(*self, sq, by, self.spec_occupied())
                != 0),
            sq < 64 && attacked(*self, sq, by) ==> r,
            self.spec_by_color(by) == 0 ==> !r,
    {
        let bb = self.attacks_to(sq, by, self.occupied());
        proof {
            let c = self.spec_by_color(by);
            assert(bb & !c == 0 && c == 0 ==> bb == 0) by (bit_vector);
            if sq < 64 {
                self.lemma_is_attacked(sq, by);
            }
        }
        bb != 0
    }

    /// How many pieces stand on the board.
    pub fn piece_count(&self) -> (n: u32)
        ensures
            n == count(self.spec_occupied()),
            n <= 64,
    {
        count_squares(self.white | self.black)
    }

    /// The board with whatever stands on the square taken away and, if a
    /// piece is given, that piece put there.
    pub open spec fn spec_place(self, sq: u8, piece: Option<Piece>) -> Board {
        let b = bit(sq);
        Board {
            pawns: put(self.pawns, b, piece matches Some(p) && p.role == Role::Pawn),
            knights: put(self.knights, b, piece matches Some(p) && p.role == Role::Knight),
            bishops: put(self.bishops, b, piece matches Some(p) && p.role == Role::Bishop),
            rooks: put(self.rooks, b, piece matches Some(p) && p.role == Role::Rook),
            queens: put(self.queens, b, piece matches Some(p) && p.role == Role::Queen),
            kings: put(self.kings, b, piece matches Some(p) && p.role == Role::King),
            white: put(self.white, b, piece matches Some(p) && p.color == Color::White),
            black: put(self.black, b, piece matches Some(p) && p.color == Color::Black),
        }
    }

    /// Placing keeps a board a board, sets the one square as asked and
    /// leaves every other square as it was.
    pub proof fn lemma_place(self, sq: u8, piece: Option<Piece>)
        requires
            self.wf(),
            sq < 64,
        ensures
            self.spec_place(sq, piece).wf(),
            self.spec_place(sq, piece).piece_on(sq) == piece,
            forall|t: u8| t != sq ==> self.spec_place(sq, piece).piece_on(t) == self.piece_on(t),
    {
        let n = self.spec_place(sq, piece);
        let fp = piece matches Some(p) && p.role == Role::Pawn;
        let fn_ = piece matches Some(p) && p.role == Role::Knight;
        let fb = piece matches Some(p) && p.role == Role::Bishop;
        let fr = piece matches Some(p) && p.role == Role::Rook;
        let fq = piece matches Some(p) && p.role == Role::Queen;
        let fk = piece matches Some(p) && p.role == Role::King;
        let fw = piece matches Some(p) && p.color == Color::White;
        let fl = piece matches Some(p) && p.color == Color::Black;
        lemma_put_consistent(
            self.pawns,
            self.knights,
            self.bishops,
            self.rooks,
            self.queens,
            self.kings,
            self.white,
            self.black,
            bit(sq),
            fp,
            fn_,
            fb,
            fr,
            fq,
            fk,
            fw,
            fl,
        );
        assert forall|t: u8| t < 64 implies n.piece_on(t) == (if t == sq {
            piece
        } else {
            self.piece_on(t)
        }) by {
            lemma_put_member(self.pawns, sq, fp, t);
            lemma_put_member(self.knights, sq, fn_, t);
            lemma_put_member(self.bishops, sq, fb, t);
            lemma_put_member(self.rooks, sq, fr, t);
            lemma_put_member(self.queens, sq, fq, t);
            lemma_put_member(self.kings, sq, fk, t);
            lemma_put_member(self.white, sq, fw, t);
            lemma_put_member(self.black, sq, fl, t);
            lemma_member_ops(n.white, n.black, t);
            lemma_member_ops(self.white, self.black, t);
        }
    }

    /// Takes whatever stands on the square away and, if a piece is given,
    /// puts that piece there.
    pub fn place(&mut self, sq: u8, piece: Option<Piece>)
        requires
            old(self).wf(),
            sq < 64,
        ensures
            *final(self) == old(self).spec_place(sq, piece),
            final(self).wf(),
            final(self).piece_on(sq) == piece,
            forall|t: u8| t != sq ==> final(self).piece_on(t) == old(self).piece_on(t),
    {
        let b = square_bit(sq);
        let (fp, fn_, fb, fr, fq, fk, fw, fl) = match piece {
            None => (false, false, false, false, false, false, false, false),
            Some(p) => {
                let w = p.color.is_white();
                (
                    p.role == Role::Pawn,
                    p.role == Role::Knight,
                    p.role == Role::Bishop,
                    p.role == Role::Rook,
                    p.role == Role::Queen,
                    p.role == Role::King,
                    w,
                    !w,
                )
            },
        };
        proof {
            old(self).lemma_place(sq, piece);
        }
        self.pawns = toggle(self.pawns, b, fp);
        self.knights = toggle(self.knights, b, fn_);
        self.bishops = toggle(self.bishops, b, fb);
        self.rooks = toggle(self.rooks, b, fr);
        self.queens = toggle(self.queens, b, fq);
        self.kings = toggle(self.kings, b, fk);
        self.white = toggle(self.white, b, fw);
        self.black = toggle(self.black, b, fl);
    }

    /// Two boards with the same piece on every square are the same board.
    pub proof fn lemma_same_pieces(self, other: Board)
        requires
            self.wf(),
            other.wf(),
            forall|sq: u8| sq < 64 ==> self.piece_on(sq) == other.piece_on(sq),
        ensures
            self == other,
    {
        assert forall|sq: u8| sq < 64 implies {
            &&& member(self.pawns, sq) == member(other.pawns, sq)
            &&& member(self.knights, sq) == member(other.knights, sq)
            &&& member(self.bishops, sq) == member(other.bishops, sq)
            &&& member(self.rooks, sq) == member(other.rooks, sq)
            &&& member(self.queens, sq) == member(other.queens, sq)
            &&& member(self.kings, sq) == member(other.kings, sq)
            &&& member(self.white, sq) == member(other.white, sq)
            &&& member(self.black, sq) == member(other.black, sq)
        } by {
            self.lemma_squares(sq);
            other.lemma_squares(sq);
            assert(self.pawns == self.spec_by_role(Role::Pawn));
            assert(self.knights == self.spec_by_role(Role::Knight));
            assert(self.bishops == self.spec_by_role(Role::Bishop));
            assert(self.rooks == self.spec_by_role(Role::Rook));
            assert(self.queens == self.spec_by_role(Role::Queen));
            assert(self.kings == self.spec_by_role(Role::King));
            assert(self.white == self.spec_by_color(Color::White));
            assert(self.black == self.spec_by_color(Color::Black));
            assert(other.pawns == other.spec_by_role(Role::Pawn));
            assert(other.knights == other.spec_by_role(Role::Knight));
            assert(other.bishops == other.spec_by_role(Role::Bishop));
            assert(other.rooks == other.spec_by_role(Role::Rook));
            assert(other.queens == other.spec_by_role(Role::Queen));
            assert(other.kings == other.spec_by_role(Role::King));
            assert(other.white == other.spec_by_color(Color::White));
            assert(other.black == other.spec_by_color(Color::Black));
        }
        lemma_same_squares(self.pawns, other.pawns);
        lemma_same_squares(self.knights, other.knights);
        lemma_same_squares(self.bishops, other.bishops);
        lemma_same_squares(self.rooks, other.rooks);
        lemma_same_squares(self.queens, other.queens);
        lemma_same_squares(self.kings, other.kings);
        lemma_same_squares(self.white, other.white);
        lemma_same_squares(self.black, other.black);
    }

    /// Puts a piece on a square, in place of whatever stood there. Fails, and
    /// changes nothing, if the number is no square.
    pub fn set(&mut self, sq: u8, piece: Piece) -> (r: Result<(), ChessError>)
        requires
            old(self).wf(),
        ensures
            final(self).wf(),
            sq < 64 ==> r.is_ok() && final(self).piece_on(sq) == Some(piece) && forall|t: u8|
                t != sq ==> final(self).piece_on(t) == old(self).piece_on(t),
            sq >= 64 ==> r == Err::<(), ChessError>(ChessError::Encoding(EncodingFault::Square))
                && *final(self) == *old(self),
    {
        if sq >= 64 {
            return Err(ChessError::Encoding(EncodingFault::Square));
        }
        self.place(sq, Some(piece));
        Ok(())
    }

    /// Takes the piece on a square away and returns it. Fails, and changes
    /// nothing, if the number is no square.
    pub fn remove(&mut self, sq: u8) -> (r: Result<Option<Piece>, ChessError>)
        requires
            old(self).wf(),
        ensures
            final(self).wf(),
            sq < 64 ==> r == Ok::<Option<Piece>, ChessError>(old(self).piece_on(sq))
                && final(self).piece_on(sq).is_none() && forall|t: u8|
                t != sq ==> final(self).piece_on(t) == old(self).piece_on(t),
            sq >= 64 ==> r == Err::<Option<Piece>, ChessError>(
                ChessError::Encoding(EncodingFault::Square),
            ) && *final(self) == *old(self),
    {
        if sq >= 64 {
            return Err(ChessError::Encoding(EncodingFault::Square));
        }
        let was = self.piece_at(sq);
        self.place(sq, None);
        Ok(was)
    }
}

/// The set `bb` with the squares of `b` added (`on`) or taken out.
fn toggle(bb: u64, b: u64, on: bool) -> (r: u64)
    ensures
        r == put(bb, b, on),
{
    if on {
        bb | b
    } else {
        bb & !b
    }
}

} // verus!
