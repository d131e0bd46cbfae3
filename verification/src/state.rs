//! Everything a caller may ask of a position, gathered in one value.

use vstd::prelude::*;
use vstd::string::StringExecFns;
use std::collections::HashMap;
use crate::my_move::MyMove;

verus! {

/// The answers to the queries on a position, as plain values.
pub struct MyBoardStateRust {
    pub __str__: String,
    pub ply: u32,
    pub turn: u8,
    pub is_game_over: bool,
    pub legal_moves: Vec<MyMove>,
    pub number_of_pieces_on_the_board: u32,
    pub has_queenside_castling_rights: bool,
    pub has_kingside_castling_rights: bool,
    pub piece_map: HashMap<u64, (u32, bool)>,
    pub is_attacked_white: bool,
    pub is_attacked_black: bool,
    pub occupied: u64,
    pub pawns: u64,
    pub knights: u64,
    pub bishops: u64,
    pub rooks: u64,
    pub queens: u64,
    pub kings: u64,
    pub promoted: u64,
    pub ep_square: i32,
    pub halfmove_clock: u32,
    pub fullmove_number: u32,
    pub castling_rights: u64,
    pub white: u64,
    pub black: u64,
    pub result: String,
}

impl MyBoardStateRust {
    /// Gathers the given answers; each field holds the argument of its name.
    pub fn new(
        __str__: &str,
        ply: u32,
        turn: u8,
        is_game_over: bool,
        legal_moves: Vec<MyMove>,
        number_of_pieces_on_the_board: u32,
        has_queenside_castling_rights: bool,
        has_kingside_castling_rights: bool,
        piece_map: HashMap<u64, (u32, bool)>,
        is_attacked_white: bool,
        is_attacked_black: bool,
        occupied: u64,
        pawns: u64,
        knights: u64,
        bishops: u64,
        rooks: u64,
        queens: u64,
        kings: u64,
        promoted: u64,
        ep_square: i32,
        halfmove_clock: u32,
        fullmove_number: u32,
        castling_rights: u64,
        white: u64,
        black: u64,
        result: &str,
    ) -> (state: MyBoardStateRust)
        ensures
            state.__str__@ == __str__@,
            state.ply == ply,
            state.turn == turn,
            state.is_game_over == is_game_over,
            state.legal_moves == legal_moves,
            state.number_of_pieces_on_the_board == number_of_pieces_on_the_board,
            state.has_queenside_castling_rights == has_queenside_castling_rights,
            state.has_kingside_castling_rights == has_kingside_castling_rights,
            state.piece_map == piece_map,
            state.is_attacked_white == is_attacked_white,
            state.is_attacked_black == is_attacked_black,
            state.occupied == occupied,
            state.pawns == pawns,
            state.knights == knights,
            state.bishops == bishops,
            state.rooks == rooks,
            state.queens == queens,
            state.kings == kings,
            state.promoted == promoted,
            state.ep_square == ep_square,
            state.halfmove_clock == halfmove_clock,
            state.fullmove_number == fullmove_number,
            state.castling_rights == castling_rights,
            state.white == white,
            state.black == black,
            state.result@ == result@,
    {
        MyBoardStateRust {
            __str__: String::from_str(__str__),
            ply,
            turn,
            is_game_over,
            legal_moves,
            number_of_pieces_on_the_board,
            has_queenside_castling_rights,
            has_kingside_castling_rights,
            piece_map,
            is_attacked_white,
            is_attacked_black,
            occupied,
            pawns,
            knights,
            bishops,
            rooks,
            queens,
            kings,
            promoted,
            ep_square,
            halfmove_clock,
            fullmove_number,
            castling_rights,
            white,
            black,
            result: String::from_str(result),
        }
    }
}

} // verus!
