//! The rules of chess, taken from the `shakmaty` crate.
//!
//! Every call into that crate is made here. A position crosses the border
//! as the text that the crate itself writes and reads for it; a move as
//! integer codes; a set of squares as a 64-bit word. Because a position
//! crosses as text, a function that asks something of a position first has
//! the crate read the text and set the position up, and its name stands for
//! that whole chain. Nothing in this module is proved: each function states
//! what the crate's calls return, mostly by giving the result a name, and
//! the rest of the library is proved from these statements.

use vstd::prelude::*;
use shakmaty::fen::Fen;
use shakmaty::uci::UciMove;
use shakmaty::zobrist::{Zobrist64, ZobristValue};
use shakmaty::{Bitboard, ByColor, ByRole, CastlingMode, Chess, EnPassantMode};
use shakmaty::{Position as Playable, Setup, Square};
use std::num::NonZeroU32;
use crate::board::Board;
use crate::moves::RawMove;
use crate::piece::{Color, Role};
use crate::position::Position;

verus! {

/// The text that `shakmaty` writes for a position given as plain values.
pub uninterp spec fn fen_text(p: Position) -> Seq<char>;

/// The text of a position, its marks of promotion left out: standard chess
/// does not write them.
pub open spec fn text_of(p: Position) -> Seq<char> {
    fen_text(p.unmarked())
}

/// The position that `shakmaty` reads from a text, if it reads one.
pub uninterp spec fn text_position(text: Seq<char>) -> Option<Position>;

/// Whether `shakmaty` reads the text (`Fen::from_ascii`) and accepts what it
/// reads as a position of standard chess that can be played
/// (`Fen::into_position`). Where it does, the text describes that position.
pub uninterp spec fn playable(text: Seq<char>) -> bool;

/// What `Position::legal_moves` lists for the position that a text
/// describes, in its order and as codes.
pub uninterp spec fn legal_moves_of(text: Seq<char>) -> Seq<RawMove>;

/// The text of what `Position::play_unchecked` makes of the position that
/// a text describes, by the legal move with the given index in
/// `legal_moves_of`.
pub uninterp spec fn played(text: Seq<char>, index: int) -> Seq<char>;

/// The squares of the pieces of one color that attack a square, where the
/// sliding pieces are stopped by the squares of `occupied`.
pub uninterp spec fn attackers_of(board: Board, sq: u8, by: Color, occupied: u64) -> u64;

/// What `Position::is_insufficient_material` says of the position that a
/// text describes: whether neither side has the material to win.
pub uninterp spec fn insufficient_material(text: Seq<char>) -> bool;

/// The move that `shakmaty` reads from a move text (`UciMove::from_ascii`)
/// and takes as a move of the position that a text describes
/// (`UciMove::to_move`), as codes; none if the text is no move or the move is
/// not legal there.
pub uninterp spec fn uci_move(text: Seq<char>, uci: Seq<char>) -> Option<RawMove>;

/// The key that `shakmaty` mixes into a fingerprint for a piece on a square.
pub uninterp spec fn piece_key(sq: u8, role: Role, color: Color) -> u64;

/// Writes a position as text.
///
/// Builds a `shakmaty::Setup` from the plain values, without the marks of
/// promotion, and returns what `Fen`'s `Display` writes for it. The contract
/// only names the text.
#[verifier::external_body]
pub(crate) fn position_text(p: &Position) -> (text: String)
    requires
        p.wf(),
    ensures
        text@ == fen_text(p.unmarked()),
{
    let by_role = ByRole::new_with(|r| Bitboard(p.board.by_role_code(r.into())));
    let by_color = ByColor::new_with(|c| Bitboard(p.board.by_white(c.is_white())));
    let setup = Setup {
        board: shakmaty::Board::from_bitboards(by_role, by_color),
        turn: shakmaty::Color::from_white(p.turn.is_white()),
        castling_rights: Bitboard(p.castling_rights),
        ep_square: p.ep_square.map(|s| Square::new(s.into())),
        halfmoves: p.halfmoves,
        fullmoves: NonZeroU32::new(p.fullmoves).unwrap(),
        ..Setup::empty()
    };
    Fen(setup).to_string()
}

/// Reads a position from text.
///
/// Calls `Fen::from_ascii` and hands the fields of the `Setup` it returns
/// over as plain values; pockets and remaining checks, which standard chess
/// does not have, are left behind. The contract only names the result.
#[verifier::external_body]
pub(crate) fn read_position(text: &str) -> (r: Option<Position>)
    ensures
        r == text_position(text@),
{
    let s = Fen::from_ascii(text.as_bytes()).ok()?.0;
    let (r, c) = s.board.into_bitboards();
    let (pawns, knights, bishops, rooks) = (r.pawn.0, r.knight.0, r.bishop.0, r.rook.0);
    Some(Position {
        board: Board { pawns, knights, bishops, rooks,
            queens: r.queen.0, kings: r.king.0, white: c.white.0, black: c.black.0 },
        promoted: s.promoted.0,
        turn: Color::from_white(s.turn.is_white()),
        castling_rights: s.castling_rights.0,
        ep_square: s.ep_square.map(u8::from),
        halfmoves: s.halfmoves,
        fullmoves: s.fullmoves.get(),
    })
}

/// Asks whether a text describes a position that can be played.
///
/// Calls `Fen::from_ascii` and then `Fen::into_position` for standard chess
/// with standard castling, and says whether both succeed.
#[verifier::external_body]
pub(crate) fn is_playable(text: &str) -> (ok: bool)
    ensures
        ok == playable(text@),
{
    match Fen::from_ascii(text.as_bytes()) {
        Ok(fen) => fen.into_position::<Chess>(CastlingMode::Standard).is_ok(),
        Err(_) => false,
    }
}

/// Lists the legal moves of a position.
///
/// Calls `Position::legal_moves` on the position that the text describes
/// and hands each move over as the codes that `shakmaty` gives its parts.
#[verifier::external_body]
pub(crate) fn list_moves(text: &str) -> (moves: Vec<RawMove>)
    requires
        playable(text@),
    ensures
        moves@ == legal_moves_of(text@),
{
    let fen = Fen::from_ascii(text.as_bytes()).unwrap();
    let pos: Chess = fen.into_position(CastlingMode::Standard).unwrap();
    pos.legal_moves().iter().map(|m| RawMove {
        castle: m.is_castle(),
        en_passant: m.is_en_passant(),
        role: m.role().into(),
        from: m.from().map(u8::from),
        capture: m.capture().map(u32::from),
        to: m.to().into(),
        promotion: m.promotion().map(u32::from),
    }).collect()
}

/// Plays a legal move.
///
/// Calls `Position::play_unchecked` with the move that has the given index
/// in the list of `Position::legal_moves`, and returns the text of the
/// position reached, the en-passant target written whenever a pawn has
/// advanced two squares.
#[verifier::external_body]
pub(crate) fn play_nth(text: &str, index: usize) -> (next: String)
    requires
        playable(text@),
        index < legal_moves_of(text@).len(),
    ensures
        next@ == played(text@, index as int),
{
    let fen = Fen::from_ascii(text.as_bytes()).unwrap();
    let mut pos: Chess = fen.into_position(CastlingMode::Standard).unwrap();
    let m = pos.legal_moves()[index].clone();
    pos.play_unchecked(&m);
    Fen::from_position(pos, EnPassantMode::Always).to_string()
}

/// The pieces of one color that attack a square.
///
/// Calls `Board::attacks_to`. Its result is a subset of the pieces of the
/// attacking color, as the first operand of its intersection shows.
#[verifier::external_body]
pub(crate) fn attackers(board: &Board, sq: u8, by: Color, occupied: u64) -> (bb: u64)
    requires
        board.wf(),
        sq < 64,
    ensures
        bb == attackers_of(*board, sq, by, occupied),
        bb & !board.spec_by_color(by) == 0,
{
    let by_role = ByRole::new_with(|r| Bitboard(board.by_role_code(r.into())));
    let by_color = ByColor::new_with(|c| Bitboard(board.by_white(c.is_white())));
    let b = shakmaty::Board::from_bitboards(by_role, by_color);
    let attacker = shakmaty::Color::from_white(by.is_white());
    b.attacks_to(Square::new(sq.into()), attacker, Bitboard(occupied)).0
}

/// Asks whether neither side has the material to win.
///
/// Calls `Position::is_insufficient_material`.
#[verifier::external_body]
pub(crate) fn is_insufficient_material(text: &str) -> (r: bool)
    requires
        playable(text@),
    ensures
        r == insufficient_material(text@),
{
    let fen = Fen::from_ascii(text.as_bytes()).unwrap();
    let pos: Chess = fen.into_position(CastlingMode::Standard).unwrap();
    pos.is_insufficient_material()
}

/// Reads a move from its text.
///
/// Calls `UciMove::from_ascii` and `UciMove::to_move`, which gives a move
/// only if it is legal in the position, and hands the move over as the
/// codes that `shakmaty` gives its parts. The contract only names the
/// result.
#[verifier::external_body]
pub(crate) fn read_uci(text: &str, uci: &str) -> (r: Option<RawMove>)
    requires
        playable(text@),
    ensures
        r == uci_move(text@, uci@),
{
    let fen = Fen::from_ascii(text.as_bytes()).unwrap();
    let pos: Chess = fen.into_position(CastlingMode::Standard).unwrap();
    let m = UciMove::from_ascii(uci.as_bytes()).ok()?.to_move(&pos).ok()?;
    Some(RawMove {
        castle: m.is_castle(),
        en_passant: m.is_en_passant(),
        role: m.role().into(),
        from: m.from().map(u8::from),
        capture: m.capture().map(u32::from),
        to: m.to().into(),
        promotion: m.promotion().map(u32::from),
    })
}

/// The fingerprint key of a piece on a square.
///
/// Calls `ZobristValue::zobrist_for_piece` for 64-bit values, which looks
/// the key up in a fixed table. The contract only names the key.
#[verifier::external_body]
pub(crate) fn key_of_piece(sq: u8, role: Role, color: Color) -> (key: u64)
    requires
        sq < 64,
    ensures
        key == piece_key(sq, role, color),
{
    let role = shakmaty::Role::try_from(role.code()).unwrap();
    let piece = role.of(shakmaty::Color::from_white(color.is_white()));
    Zobrist64::zobrist_for_piece(Square::new(sq.into()), piece).0
}

} // verus!
