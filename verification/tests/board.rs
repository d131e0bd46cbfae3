use chess_position::bits::{count_squares, holds, square_bit};
use chess_position::board::Board;
use chess_position::chess::MyChess;
use chess_position::error::{ChessError, EncodingFault, ProbeFault};
use chess_position::hash::{castling_key, ep_file_key, hash, incremental_update, WHITE_TO_MOVE};
use chess_position::moves::Move;
use chess_position::my_move::MyMove;
use chess_position::piece::{Color, Piece, Role};
use chess_position::position::Position;
use chess_position::probe::{check_domain, dtz_answer, wdl_answer, ProbeFailure, Wdl};
use chess_position::record::diff;
use chess_position::state::MyBoardStateRust;
use chess_position::movement::{check_fits, does_move_like, is_attacked_by, is_path_clear, is_path_safe};
use chess_position::text::{check_placement, count_fields, has_move_shape, take_before_space};
use std::collections::HashMap;

const D4: u8 = 27;
const D8: u8 = 59;

fn piece(color: Color, role: Role) -> Piece {
    Piece { color, role }
}

#[test]
fn a_rook_attacks_along_its_file() {
    let mut board = Board::empty();
    board.set(D4, piece(Color::White, Role::Rook)).unwrap();
    board.set(D8, piece(Color::Black, Role::King)).unwrap();
    assert!(board.is_attacked(D8, Color::White));
    assert_eq!(board.attacks_to(D8, Color::White, board.occupied()), 1 << D4);
    assert!(!board.is_attacked(D8, Color::Black));
    assert!(!board.is_attacked(D4, Color::Black));
    assert_eq!(board.remove(D4).unwrap(), Some(piece(Color::White, Role::Rook)));
    assert!(!board.is_attacked(D8, Color::White));
    assert_eq!(board.attacks_to(D8, Color::White, board.occupied()), 0);
}

#[test]
fn a_rook_attacks_by_its_movement() {
    let mut board = Board::empty();
    board.set(D4, piece(Color::White, Role::Rook)).unwrap();
    board.set(D8, piece(Color::Black, Role::King)).unwrap();
    assert!(is_attacked_by(&board, D8, Color::White));
    assert!(board.is_attacked(D8, Color::White));
    assert!(!is_attacked_by(&board, D8, Color::Black));
    assert!(!is_attacked_by(&board, D4, Color::Black));
    assert!(is_attacked_by(&board, 51, Color::Black));
    board.set(43, piece(Color::Black, Role::Pawn)).unwrap();
    assert!(!is_attacked_by(&board, D8, Color::White));
    assert!(is_attacked_by(&board, 43, Color::White));
    assert!(is_attacked_by(&board, 34, Color::Black));
    assert!(!is_attacked_by(&board, 35, Color::Black));
    board.remove(D4).unwrap();
    assert!(!is_attacked_by(&board, 43, Color::White));
}

#[test]
fn a_piece_in_between_stops_a_rook() {
    let mut board = Board::empty();
    board.set(D4, piece(Color::White, Role::Rook)).unwrap();
    board.set(D8, piece(Color::Black, Role::King)).unwrap();
    board.set(43, piece(Color::Black, Role::Pawn)).unwrap();
    assert!(!board.is_attacked(D8, Color::White));
    assert_eq!(board.attacks_to(D8, Color::White, (1 << D4) | (1 << D8)), 1 << D4);
}

#[test]
fn attacks_of_each_role() {
    let mut board = Board::empty();
    board.set(0, piece(Color::White, Role::Bishop)).unwrap();
    board.set(37, piece(Color::White, Role::Knight)).unwrap();
    board.set(35, piece(Color::White, Role::King)).unwrap();
    board.set(19, piece(Color::White, Role::Pawn)).unwrap();
    board.set(31, piece(Color::White, Role::Queen)).unwrap();
    let all = board.occupied();
    assert_eq!(board.attacks_to(27, Color::White, all), (1 << 0) | (1 << 37) | (1 << 35) | (1 << 31));
    assert_eq!(board.attacks_to(26, Color::White, all), (1 << 35) | (1 << 19) | (1 << 31));
    assert_eq!(board.attacks_to(28, Color::White, all), (1 << 35) | (1 << 19) | (1 << 31));
    assert_eq!(board.attacks_to(56, Color::White, all), 0);
    assert_eq!(board.attacks_to(27, Color::Black, all), 0);
    assert_eq!(board.attacks_to(64, Color::White, all), 0);
    assert!(!board.is_attacked(200, Color::White));
}

#[test]
fn set_and_remove_keep_the_board_sound() {
    let mut board = Board::empty();
    assert!(board.is_consistent());
    assert_eq!(board.piece_count(), 0);
    board.set(10, piece(Color::White, Role::Queen)).unwrap();
    board.set(10, piece(Color::Black, Role::Knight)).unwrap();
    assert!(board.is_consistent());
    assert_eq!(board.piece_at(10), Some(piece(Color::Black, Role::Knight)));
    assert_eq!(board.queens, 0);
    assert_eq!(board.white, 0);
    assert_eq!(board.knights, 1 << 10);
    assert_eq!(board.black, 1 << 10);
    assert_eq!(board.by_role(Role::Knight), 1 << 10);
    assert_eq!(board.by_color(Color::Black), 1 << 10);
    assert_eq!(board.by_role_code(2), 1 << 10);
    assert_eq!(board.by_role_code(9), 0);
    assert_eq!(board.by_white(false), 1 << 10);
    assert_eq!(board.occupied(), 1 << 10);
    assert_eq!(board.piece_count(), 1);
    assert_eq!(board.remove(11).unwrap(), None);
    assert_eq!(board.remove(10).unwrap(), Some(piece(Color::Black, Role::Knight)));
    assert_eq!(board, Board::empty());
}

#[test]
fn numbers_that_are_no_squares_are_refused() {
    let mut board = Board::empty();
    board.set(3, piece(Color::White, Role::King)).unwrap();
    let before = board;
    assert_eq!(
        board.set(64, piece(Color::White, Role::Pawn)),
        Err(ChessError::Encoding(EncodingFault::Square))
    );
    assert_eq!(board.remove(64), Err(ChessError::Encoding(EncodingFault::Square)));
    assert_eq!(board.remove(255), Err(ChessError::Encoding(EncodingFault::Square)));
    assert_eq!(board, before);
    assert_eq!(board.piece_at(64), None);
}

#[test]
fn inconsistent_sets_are_noticed() {
    let mut board = Board::empty();
    board.pawns = 1;
    assert!(!board.is_consistent());
    board.white = 1;
    assert!(board.is_consistent());
    board.black = 1;
    assert!(!board.is_consistent());
    board.black = 0;
    board.kings = 1;
    assert!(!board.is_consistent());
}

#[test]
fn squares_of_a_set() {
    assert_eq!(square_bit(0), 1);
    assert_eq!(square_bit(63), 1 << 63);
    assert!(holds(0b1010, 1));
    assert!(!holds(0b1010, 2));
    assert_eq!(count_squares(0), 0);
    assert_eq!(count_squares(u64::MAX), 64);
    assert_eq!(count_squares(0x8100_0000_0000_0081), 4);
}

#[test]
fn codes_of_colors_and_roles() {
    assert_eq!(Color::White.code(), 1);
    assert_eq!(Color::Black.code(), 0);
    assert_eq!(Color::from_white(true), Color::White);
    assert_eq!(Color::from_white(false), Color::Black);
    assert_eq!(Color::White.other(), Color::Black);
    assert_eq!(Color::Black.other(), Color::White);
    assert!(Color::White.is_white());
    assert!(!Color::Black.is_white());
    let roles = [Role::Pawn, Role::Knight, Role::Bishop, Role::Rook, Role::Queen, Role::King];
    for (i, role) in roles.iter().enumerate() {
        assert_eq!(role.code(), i as u32 + 1);
        assert_eq!(Role::from_code(i as u32 + 1), Some(*role));
    }
    assert_eq!(Role::from_code(0), None);
    assert_eq!(Role::from_code(7), None);
}

fn position(fen: &str) -> Position {
    MyChess::new(fen).unwrap().position()
}

#[test]
fn applying_a_move_by_the_rules_of_application() {
    let start = position("rnbqkbnr/pppppppp/8/8/8/8/PPPPPPPP/RNBQKBNR w KQkq - 0 1");
    let m = Move::Normal { role: Role::Pawn, from: 12, capture: None, to: 28, promotion: None };
    let next = start.apply(m);
    assert_eq!(next.board.pawns, 0x00ff_0000_1000_ef00);
    assert_eq!(next.board.white, 0x0000_0000_1000_efff);
    assert_eq!(next.turn, Color::Black);
    assert_eq!(next.ep_square, Some(20));
    assert_eq!(next.halfmoves, 0);
    assert_eq!(next.fullmoves, 1);
    assert_eq!(next.castling_rights, start.castling_rights);
    let knight = Move::Normal { role: Role::Knight, from: 62, capture: None, to: 45, promotion: None };
    let after = next.apply(knight);
    assert_eq!(after.turn, Color::White);
    assert_eq!(after.ep_square, None);
    assert_eq!(after.halfmoves, 1);
    assert_eq!(after.fullmoves, 2);
    assert!(after.is_well_formed());
}

#[test]
fn counters_stop_at_the_largest_number() {
    let p = position("4k3/8/8/8/8/8/8/4K3 b - - 4294967295 4294967295");
    let m = Move::Normal { role: Role::King, from: 60, capture: None, to: 59, promotion: None };
    let q = p.apply(m);
    assert_eq!(q.halfmoves, u32::MAX);
    assert_eq!(q.fullmoves, u32::MAX);
}

#[test]
fn fingerprint_parts() {
    assert_eq!(WHITE_TO_MOVE, 0xf8d6_26aa_af27_8509);
    assert_eq!(castling_key(Color::White, true), 0x31d7_1dce_64b2_c310);
    assert_eq!(castling_key(Color::White, false), 0xf165_b587_df89_8190);
    assert_eq!(castling_key(Color::Black, true), 0xa57e_6339_dd2c_f3a0);
    assert_eq!(castling_key(Color::Black, false), 0x1ef6_e6db_b196_1ec9);
    assert_eq!(ep_file_key(0), 0x70cc_73d9_0bc2_6e24);
    assert_eq!(ep_file_key(7), 0x67a3_4dac_4356_550b);
    let kings = position("4k3/8/8/8/8/8/8/4K3 b - - 0 1");
    let white_to_move = position("4k3/8/8/8/8/8/8/4K3 w - - 0 1");
    assert_eq!(hash(&kings, false) ^ hash(&white_to_move, false), WHITE_TO_MOVE);
    let with_right = position("4k3/8/8/8/8/8/8/4K2R w K - 0 1");
    let without = position("4k3/8/8/8/8/8/8/4K2R w - - 0 1");
    assert_eq!(hash(&with_right, false) ^ hash(&without, false), castling_key(Color::White, true));
    let target = position("rnbqkbnr/ppp1p1pp/8/3pPp2/8/8/PPPP1PPP/RNBQKBNR w KQkq f6 0 3");
    assert_eq!(hash(&target, true) ^ hash(&target, false), ep_file_key(5));
}

#[test]
fn fingerprint_follows_the_record() {
    let mut game = MyChess::new("rnbqkbnr/ppp1p1pp/8/3pPp2/8/8/PPPP1PPP/RNBQKBNR w KQkq f6 0 3").unwrap();
    let before = game.hash();
    let m = MyMove::new("e5f6", &game).unwrap();
    let record = game.play_with_modifications(&m).unwrap();
    assert!(record.ep_available_before);
    assert!(!record.ep_available_after);
    assert_eq!(record.changes.len(), 3);
    assert_eq!(incremental_update(before, &record), game.hash());
    assert_ne!(before, game.hash());
    let same = diff(&game.position(), &game.position(), false, false);
    assert!(same.changes.is_empty());
}

#[test]
fn tablebase_answers() {
    assert_eq!(wdl_answer(Ok(Wdl::Loss)), Ok(-2));
    assert_eq!(wdl_answer(Ok(Wdl::BlessedLoss)), Ok(-1));
    assert_eq!(wdl_answer(Ok(Wdl::Draw)), Ok(0));
    assert_eq!(wdl_answer(Ok(Wdl::CursedWin)), Ok(1));
    assert_eq!(wdl_answer(Ok(Wdl::Win)), Ok(2));
    assert_eq!(wdl_answer(Err(ProbeFailure::Castling)), Err(ChessError::Probe(ProbeFault::OutOfDomain)));
    assert_eq!(wdl_answer(Err(ProbeFailure::TooManyPieces)), Err(ChessError::Probe(ProbeFault::OutOfDomain)));
    assert_eq!(dtz_answer(Ok(-17)), Ok(-17));
    assert_eq!(dtz_answer(Err(ProbeFailure::MissingTable)), Err(ChessError::Probe(ProbeFault::Unavailable)));
    assert_eq!(dtz_answer(Err(ProbeFailure::ProbeFailed)), Err(ChessError::Probe(ProbeFault::Unavailable)));
    assert_eq!(Wdl::from_code(2), Some(Wdl::Win));
    assert_eq!(Wdl::from_code(-2), Some(Wdl::Loss));
    assert_eq!(Wdl::from_code(3), None);
    assert_eq!(ChessError::Probe(ProbeFault::OutOfDomain).message(), "position outside the tablebase");
    assert_eq!(ChessError::Probe(ProbeFault::Unavailable).message(), "tablebase data unavailable");
}

#[test]
fn tablebase_domain() {
    let endgame = position("4k3/8/8/8/8/8/4P3/4K3 w - - 0 1");
    assert_eq!(check_domain(&endgame, 7), Ok(()));
    assert_eq!(check_domain(&endgame, 3), Ok(()));
    assert_eq!(check_domain(&endgame, 2), Err(ChessError::Probe(ProbeFault::OutOfDomain)));
    let castling = position("4k3/8/8/8/8/8/8/4K2R w K - 0 1");
    assert_eq!(check_domain(&castling, 7), Err(ChessError::Probe(ProbeFault::OutOfDomain)));
}

#[test]
fn fields_of_a_text() {
    assert_eq!(count_fields(""), 0);
    assert_eq!(count_fields("   "), 0);
    assert_eq!(count_fields("a"), 1);
    assert_eq!(count_fields(" a  b "), 2);
    assert_eq!(count_fields("rnbqkbnr/pppppppp/8/8/8/8/PPPPPPPP/RNBQKBNR w KQkq - 0 1"), 6);
}

#[test]
fn fields_of_a_text_with_other_characters() {
    assert_eq!(count_fields("é b"), 2);
    assert_eq!(count_fields(" é  bç d "), 3);
    assert_eq!(check_placement("é/8 w"), Some(EncodingFault::Symbol));
    assert_eq!(check_placement("8/8/8/8/8/8/8/8 é"), None);
}

#[test]
fn the_part_before_the_first_space() {
    assert_eq!(take_before_space("8/8/8/8/8/8/8/8 w - - 0 1"), "8/8/8/8/8/8/8/8");
    assert_eq!(take_before_space("abc"), "abc");
    assert_eq!(take_before_space(" abc"), "");
    assert_eq!(take_before_space(""), "");
}

#[test]
fn how_each_role_moves() {
    let mut board = Board::empty();
    board.set(27, piece(Color::White, Role::Queen)).unwrap();
    board.set(43, piece(Color::Black, Role::Pawn)).unwrap();
    assert!(does_move_like(Role::Knight, Color::White, false, 1, 18, &board));
    assert!(does_move_like(Role::Knight, Color::White, false, 1, 11, &board));
    assert!(!does_move_like(Role::Knight, Color::White, false, 1, 17, &board));
    assert!(does_move_like(Role::King, Color::White, false, 4, 13, &board));
    assert!(!does_move_like(Role::King, Color::White, false, 4, 6, &board));
    assert!(!does_move_like(Role::King, Color::White, false, 4, 4, &board));
    assert!(does_move_like(Role::Queen, Color::White, true, 27, 43, &board));
    assert!(!does_move_like(Role::Queen, Color::White, false, 27, 51, &board));
    assert!(does_move_like(Role::Queen, Color::White, false, 27, 63, &board));
    assert!(does_move_like(Role::Queen, Color::White, false, 27, 24, &board));
    assert!(!does_move_like(Role::Queen, Color::White, false, 27, 44, &board));
    assert!(does_move_like(Role::Rook, Color::White, false, 0, 56, &board));
    assert!(!does_move_like(Role::Rook, Color::White, false, 0, 9, &board));
    assert!(does_move_like(Role::Bishop, Color::White, false, 2, 47, &board));
    assert!(!does_move_like(Role::Bishop, Color::White, false, 2, 10, &board));
    assert!(!does_move_like(Role::Bishop, Color::White, false, 0, 63, &board));
    assert!(does_move_like(Role::Pawn, Color::White, false, 12, 20, &board));
    assert!(does_move_like(Role::Pawn, Color::White, false, 12, 28, &board));
    assert!(!does_move_like(Role::Pawn, Color::White, false, 20, 36, &board));
    assert!(!does_move_like(Role::Pawn, Color::White, false, 12, 4, &board));
    assert!(does_move_like(Role::Pawn, Color::White, true, 12, 21, &board));
    assert!(!does_move_like(Role::Pawn, Color::White, false, 12, 21, &board));
    assert!(!does_move_like(Role::Pawn, Color::White, true, 12, 20, &board));
    assert!(does_move_like(Role::Pawn, Color::Black, false, 51, 35, &board) == false);
    assert!(does_move_like(Role::Pawn, Color::Black, false, 52, 36, &board));
    assert!(does_move_like(Role::Pawn, Color::Black, true, 52, 43, &board));
    assert!(!does_move_like(Role::Pawn, Color::Black, false, 52, 60, &board));
}

#[test]
fn paths_between_squares() {
    let mut board = Board::empty();
    board.set(4, piece(Color::White, Role::King)).unwrap();
    board.set(7, piece(Color::White, Role::Rook)).unwrap();
    assert!(is_path_clear(&board, 4, 7));
    assert!(is_path_clear(&board, 7, 4));
    assert!(is_path_clear(&board, 4, 5));
    board.set(6, piece(Color::White, Role::Knight)).unwrap();
    assert!(!is_path_clear(&board, 4, 7));
    assert!(is_path_safe(&board, 4, 6, Color::Black));
    board.set(61, piece(Color::Black, Role::Rook)).unwrap();
    assert!(!is_path_safe(&board, 4, 6, Color::Black));
    assert!(is_path_safe(&board, 4, 2, Color::Black));
    assert!(!is_path_safe(&board, 4, 6, Color::White));
    assert!(is_path_safe(&board, 56, 58, Color::White));
}

#[test]
fn moves_that_fit_a_position() {
    let p = position("r3k2r/8/8/3pP3/8/8/P5P1/R3K2R w KQkq d6 0 1");
    let pawn = |from, to, capture, promotion| Move::Normal { role: Role::Pawn, from, capture, to, promotion };
    assert!(check_fits(&p, pawn(8, 16, None, None)));
    assert!(check_fits(&p, pawn(8, 24, None, None)));
    assert!(!check_fits(&p, pawn(8, 32, None, None)));
    assert!(!check_fits(&p, pawn(8, 16, Some(Role::Pawn), None)));
    assert!(!check_fits(&p, pawn(8, 16, None, Some(Role::Queen))));
    assert!(!check_fits(&p, pawn(9, 17, None, None)));
    assert!(check_fits(&p, Move::EnPassant { from: 36, to: 43 }));
    assert!(!check_fits(&p, Move::EnPassant { from: 36, to: 45 }));
    assert!(!check_fits(&p, pawn(36, 43, None, None)));
    assert!(check_fits(&p, Move::Castle { king: 4, rook: 7 }));
    assert!(check_fits(&p, Move::Castle { king: 4, rook: 0 }));
    assert!(!check_fits(&p, Move::Castle { king: 60, rook: 63 }));
    assert!(!check_fits(&p, Move::Castle { king: 4, rook: 56 }));
    let rook = |from, to, capture| Move::Normal { role: Role::Rook, from, capture, to, promotion: None };
    assert!(check_fits(&p, rook(0, 3, None)));
    assert!(!check_fits(&p, rook(0, 4, None)));
    assert!(!check_fits(&p, rook(0, 16, None)));
    assert!(!check_fits(&p, rook(0, 64, None)));
    assert!(check_fits(&p, rook(7, 63, Some(Role::Rook))));
    assert!(!check_fits(&p, rook(7, 63, None)));
    assert!(!check_fits(&p, rook(7, 63, Some(Role::Queen))));
    let without_right = position("r3k2r/8/8/8/8/8/8/R3K2R w Qkq - 0 1");
    assert!(!check_fits(&without_right, Move::Castle { king: 4, rook: 7 }));
    let attacked = position("r3k2r/8/8/8/8/8/8/R3K1qR w KQkq - 0 1");
    assert!(!check_fits(&attacked, Move::Castle { king: 4, rook: 7 }));
    assert!(!check_fits(&attacked, Move::Castle { king: 4, rook: 0 }));
    let promoting = position("1r2k3/P6P/8/8/8/8/8/4K3 w - - 0 1");
    assert!(check_fits(&promoting, pawn(48, 56, None, Some(Role::Knight))));
    assert!(check_fits(&promoting, pawn(48, 57, Some(Role::Rook), Some(Role::Queen))));
    assert!(!check_fits(&promoting, pawn(48, 56, None, None)));
    assert!(!check_fits(&promoting, pawn(48, 56, None, Some(Role::King))));
    assert!(!check_fits(&promoting, pawn(48, 56, None, Some(Role::Pawn))));
}

#[test]
fn faults_of_a_placement() {
    assert_eq!(check_placement("8/8/8/8/8/8/8/8 w"), None);
    assert_eq!(check_placement("  8/8/8/8/8/8/8/8"), None);
    assert_eq!(check_placement("8/8/8/8/8/8/8/7 w"), Some(EncodingFault::RankSum));
    assert_eq!(check_placement("8/8/8/8/8/8/8/8/ w"), Some(EncodingFault::RankSum));
    assert_eq!(check_placement("8/8/8/8/8/8/8/8/8 w"), Some(EncodingFault::RankSum));
    assert_eq!(check_placement("8/8/8/8/8/8/8/k8 w"), Some(EncodingFault::RankSum));
    assert_eq!(check_placement("8/8/8/8/8/8/8/7z w"), Some(EncodingFault::Symbol));
    assert_eq!(check_placement("0/8/8/8/8/8/8/8 w"), Some(EncodingFault::Symbol));
    assert_eq!(check_placement("8/8/8/8z/8/8/8/7 w"), Some(EncodingFault::Symbol));
    assert_eq!(check_placement("8/9/z"), Some(EncodingFault::Symbol));
    assert_eq!(check_placement(""), Some(EncodingFault::RankSum));
}

#[test]
fn form_of_a_move_text() {
    assert!(has_move_shape("a1h8"));
    assert!(has_move_shape("e7e8q"));
    assert!(has_move_shape("e7e8N"));
    assert!(!has_move_shape("e7e8x"));
    assert!(!has_move_shape("e7e"));
    assert!(!has_move_shape("e7e8qq"));
    assert!(!has_move_shape("e0e8"));
    assert!(!has_move_shape("éé"));
}

#[test]
fn board_state_holds_what_it_is_given() {
    let game = MyChess::new("rnbqkbnr/pppppppp/8/8/8/8/PPPPPPPP/RNBQKBNR w KQkq - 0 1").unwrap();
    let mut map: HashMap<u64, (u32, bool)> = HashMap::new();
    map.insert(4, (6, true));
    let state = MyBoardStateRust::new(
        "board fen: x",
        3,
        1,
        false,
        game.legal_moves(),
        32,
        true,
        false,
        map,
        false,
        true,
        1,
        2,
        3,
        4,
        5,
        6,
        7,
        8,
        -1,
        9,
        10,
        11,
        12,
        13,
        "*",
    );
    assert_eq!(state.__str__, "board fen: x");
    assert_eq!(state.ply, 3);
    assert_eq!(state.turn, 1);
    assert!(!state.is_game_over);
    assert_eq!(state.legal_moves.len(), 20);
    assert_eq!(state.number_of_pieces_on_the_board, 32);
    assert!(state.has_queenside_castling_rights);
    assert!(!state.has_kingside_castling_rights);
    assert_eq!(state.piece_map.get(&4), Some(&(6, true)));
    assert!(!state.is_attacked_white);
    assert!(state.is_attacked_black);
    assert_eq!(
        (state.occupied, state.pawns, state.knights, state.bishops, state.rooks, state.queens, state.kings),
        (1, 2, 3, 4, 5, 6, 7)
    );
    assert_eq!(state.promoted, 8);
    assert_eq!(state.ep_square, -1);
    assert_eq!(state.halfmove_clock, 9);
    assert_eq!(state.fullmove_number, 10);
    assert_eq!(state.castling_rights, 11);
    assert_eq!(state.white, 12);
    assert_eq!(state.black, 13);
    assert_eq!(state.result, "*");
}
