use chess_position::chess::MyChess;
use chess_position::error::{ChessError, EncodingFault};
use chess_position::moves::{Move, RawMove};
use chess_position::my_move::MyMove;
use chess_position::piece::{Color, Piece, Role};
use chess_position::record::{ChangeRecord, SquareChange};

const START: &str = "rnbqkbnr/pppppppp/8/8/8/8/PPPPPPPP/RNBQKBNR w KQkq - 0 1";

#[test]
fn move_text_of_each_kind() {
    let m = Move::Normal { role: Role::Knight, from: 6, capture: None, to: 21, promotion: None };
    assert_eq!(m.uci(), "g1f3");
    let m = Move::Normal { role: Role::Pawn, from: 48, capture: Some(Role::Rook), to: 57, promotion: Some(Role::Queen) };
    assert_eq!(m.uci(), "a7b8q");
    let m = Move::Normal { role: Role::Pawn, from: 15, capture: None, to: 7, promotion: Some(Role::Knight) };
    assert_eq!(m.uci(), "h2h1n");
    let m = Move::EnPassant { from: 36, to: 43 };
    assert_eq!(m.uci(), "e5d6");
    assert_eq!(Move::Castle { king: 4, rook: 7 }.uci(), "e1g1");
    assert_eq!(Move::Castle { king: 4, rook: 0 }.uci(), "e1c1");
    assert_eq!(Move::Castle { king: 60, rook: 63 }.uci(), "e8g8");
    assert_eq!(Move::Castle { king: 60, rook: 56 }.uci(), "e8c8");
}

#[test]
fn zeroing_moves() {
    let quiet = Move::Normal { role: Role::Knight, from: 6, capture: None, to: 21, promotion: None };
    let pawn = Move::Normal { role: Role::Pawn, from: 12, capture: None, to: 28, promotion: None };
    let capture = Move::Normal { role: Role::Queen, from: 3, capture: Some(Role::Pawn), to: 51, promotion: None };
    assert!(!quiet.is_zeroing());
    assert!(pawn.is_zeroing());
    assert!(capture.is_zeroing());
    assert!(Move::EnPassant { from: 36, to: 43 }.is_zeroing());
    assert!(!Move::Castle { king: 4, rook: 7 }.is_zeroing());
    assert!(MyMove::new_rust(pawn, "e2e4".to_string()).is_zeroing());
    assert!(!MyMove::new_rust(quiet, "g1f3".to_string()).is_zeroing());
}

#[test]
fn moves_are_equal_whatever_their_texts() {
    let castle = Move::Castle { king: 4, rook: 7 };
    let a = MyMove::new_rust(castle, "e1g1".to_string());
    let b = MyMove::new_rust(castle, "e1h1".to_string());
    let c = MyMove::new_rust(Move::Castle { king: 4, rook: 0 }, "e1c1".to_string());
    assert!(a == b);
    assert!(a != c);
    assert_eq!(a.uci(), "e1g1");
    assert_eq!(b.uci(), "e1h1");
    assert_eq!(a.chess_move(), castle);
}

#[test]
fn moves_from_codes() {
    let raw = RawMove { castle: false, en_passant: false, role: 2, from: Some(6), capture: None, to: 21, promotion: None };
    assert_eq!(
        Move::decode(&raw),
        Some(Move::Normal { role: Role::Knight, from: 6, capture: None, to: 21, promotion: None })
    );
    let raw = RawMove { castle: false, en_passant: false, role: 1, from: Some(48), capture: Some(4), to: 57, promotion: Some(5) };
    assert_eq!(
        Move::decode(&raw),
        Some(Move::Normal { role: Role::Pawn, from: 48, capture: Some(Role::Rook), to: 57, promotion: Some(Role::Queen) })
    );
    let raw = RawMove { castle: true, en_passant: false, role: 6, from: Some(4), capture: None, to: 7, promotion: None };
    assert_eq!(Move::decode(&raw), Some(Move::Castle { king: 4, rook: 7 }));
    let raw = RawMove { castle: false, en_passant: true, role: 1, from: Some(36), capture: Some(1), to: 43, promotion: None };
    assert_eq!(Move::decode(&raw), Some(Move::EnPassant { from: 36, to: 43 }));
    let raw = RawMove { castle: false, en_passant: false, role: 1, from: None, capture: None, to: 43, promotion: None };
    assert_eq!(Move::decode(&raw), None);
    let raw = RawMove { castle: false, en_passant: false, role: 7, from: Some(1), capture: None, to: 43, promotion: None };
    assert_eq!(Move::decode(&raw), None);
    let raw = RawMove { castle: false, en_passant: false, role: 1, from: Some(64), capture: None, to: 43, promotion: None };
    assert_eq!(Move::decode(&raw), None);
    let raw = RawMove { castle: false, en_passant: false, role: 1, from: Some(1), capture: Some(0), to: 43, promotion: None };
    assert_eq!(Move::decode(&raw), None);
}

#[test]
fn reading_a_move_keeps_its_text() {
    let game = MyChess::new(START).unwrap();
    let m = MyMove::new("e2e4", &game).unwrap();
    assert_eq!(m.uci(), "e2e4");
    assert_eq!(
        m.chess_move(),
        Move::Normal { role: Role::Pawn, from: 12, capture: None, to: 28, promotion: None }
    );
    assert!(m.is_zeroing());
}

#[test]
fn castling_may_be_written_as_a_move_onto_the_rook() {
    let game = MyChess::new("r3k2r/8/8/8/8/8/8/R3K2R w KQkq - 0 1").unwrap();
    let usual = MyMove::new("e1g1", &game).unwrap();
    let onto_rook = MyMove::new("e1h1", &game).unwrap();
    assert_eq!(usual.chess_move(), Move::Castle { king: 4, rook: 7 });
    assert_eq!(onto_rook.chess_move(), Move::Castle { king: 4, rook: 7 });
    assert!(usual == onto_rook);
    assert_eq!(onto_rook.uci(), "e1h1");
    let mut a = game.copy();
    let mut b = game.copy();
    a.play(&usual).unwrap();
    b.play(&onto_rook).unwrap();
    assert_eq!(a.position(), b.position());
}

#[test]
fn no_legal_move_is_listed_twice() {
    for fen in [START, "r3k2r/8/8/8/8/8/8/R3K2R w KQkq - 0 1", "n1n5/PPPk4/8/8/8/8/4Kppp/5N1N b - - 0 1"] {
        let moves = MyChess::new(fen).unwrap().legal_moves();
        for (i, a) in moves.iter().enumerate() {
            for b in moves.iter().skip(i + 1) {
                assert!(a != b, "{} {}", fen, a.uci());
                assert_ne!(a.uci(), b.uci());
            }
        }
    }
}

#[test]
fn upper_case_promotion_letter_is_read() {
    let game = MyChess::new("8/P3k3/8/8/8/8/8/4K3 w - - 0 1").unwrap();
    let m = MyMove::new("a7a8Q", &game).unwrap();
    assert_eq!(m.chess_move().promotion(), Some(Role::Queen));
    assert_eq!(m.uci(), "a7a8Q");
    assert_eq!(m.chess_move().uci(), "a7a8q");
}

#[test]
fn malformed_move_texts_are_refused() {
    let game = MyChess::new(START).unwrap();
    for text in ["", "e2", "e2e", "e2e4qq", "i2e4", "e9e4", "e2e4x", "0000", "P@e4", "E2E4"] {
        let r = MyMove::new(text, &game);
        assert!(matches!(r, Err(ChessError::Encoding(EncodingFault::Move))), "{}", text);
    }
}

#[test]
fn illegal_moves_are_refused() {
    let game = MyChess::new(START).unwrap();
    for text in ["e2e5", "e1e2", "a1a3", "e7e5", "e2e4q", "d1h5"] {
        let r = MyMove::new(text, &game);
        assert!(matches!(r, Err(ChessError::IllegalMove)), "{}", text);
    }
}

#[test]
fn playing_an_illegal_move_changes_nothing() {
    let mut game = MyChess::new(START).unwrap();
    let before = game.position();
    let m = MyMove::new_rust(
        Move::Normal { role: Role::Pawn, from: 12, capture: None, to: 36, promotion: None },
        "e2e5".to_string(),
    );
    assert!(matches!(game.play(&m), Err(ChessError::IllegalMove)));
    assert!(matches!(game.play_and_return(&m), Err(ChessError::IllegalMove)));
    assert!(matches!(game.play_and_return_o(&m), Err(ChessError::IllegalMove)));
    assert!(matches!(game.play_with_modifications(&m), Err(ChessError::IllegalMove)));
    assert!(matches!(game.play_and_return_modifications(&m), Err(ChessError::IllegalMove)));
    assert_eq!(game.position(), before);
    let off_board = MyMove::new_rust(
        Move::Normal { role: Role::Pawn, from: 200, capture: None, to: 36, promotion: None },
        "".to_string(),
    );
    assert!(matches!(game.play(&off_board), Err(ChessError::IllegalMove)));
    assert_eq!(game.position(), before);
}

#[test]
fn a_move_of_another_position_is_refused() {
    let first = MyChess::new(START).unwrap();
    let m = MyMove::new("e2e4", &first).unwrap();
    let mut second = MyChess::new("rnbqkbnr/pppppppp/8/8/4P3/8/PPPP1PPP/RNBQKBNR b KQkq e3 0 1").unwrap();
    assert!(matches!(second.play(&m), Err(ChessError::IllegalMove)));
}

#[test]
fn a_pinned_piece_may_not_leave_its_line() {
    let game = MyChess::new("4k3/8/8/8/8/4r3/4B3/4K3 w - - 0 1").unwrap();
    let texts: Vec<String> = game.legal_moves().iter().map(|m| m.uci()).collect();
    assert!(!texts.iter().any(|t| t.starts_with("e2")));
    assert_eq!(texts.len(), 4);
}

#[test]
fn every_legal_move_leaves_the_own_king_safe() {
    for fen in [
        START,
        "r3k2r/p1ppqpb1/bn2pnp1/3PN3/1p2P3/2N2Q1p/PPPBBPPP/R3K2R w KQkq - 0 1",
        "8/2p5/3p4/KP5r/1R3p1k/8/4P1P1/8 w - - 0 1",
        "4k3/8/8/8/8/4r3/4B3/4K3 w - - 0 1",
    ] {
        let game = MyChess::new(fen).unwrap();
        let mover = game.position().turn;
        for m in game.legal_moves().iter() {
            let mut next = game.copy();
            next.play(m).unwrap();
            let board = next.position().board;
            let king = (board.kings & board.by_color(mover)).trailing_zeros() as u8;
            assert!(!board.is_attacked(king, mover.other()), "{} {}", fen, m.uci());
        }
    }
}

#[test]
fn undo_takes_a_move_back() {
    let mut game = MyChess::new("r3k2r/p1ppqpb1/bn2pnp1/3PN3/1p2P3/2N2Q1p/PPPBBPPP/R3K2R w KQkq - 3 7").unwrap();
    let before = game.position();
    let m = MyMove::new("e1g1", &game).unwrap();
    let record = game.play_with_modifications(&m).unwrap();
    assert_eq!(record.changes.len(), 4);
    assert_eq!(record.castling_before, 0x8100_0000_0000_0081);
    assert_eq!(record.castling_after, 0x8100_0000_0000_0000);
    assert_eq!(record.halfmoves_before, 3);
    assert_ne!(game.position(), before);
    game.undo(&record).unwrap();
    assert_eq!(game.position(), before);
}

#[test]
fn undo_refuses_a_record_that_leads_nowhere() {
    let mut game = MyChess::new(START).unwrap();
    let before = game.position();
    let record = ChangeRecord {
        changes: vec![SquareChange {
            square: 4,
            before: None,
            after: Some(Piece { color: Color::White, role: Role::King }),
            promoted_before: false,
            promoted_after: false,
        }],
        castling_before: before.castling_rights,
        castling_after: before.castling_rights,
        ep_before: None,
        ep_after: None,
        ep_available_before: false,
        ep_available_after: false,
        halfmoves_before: 0,
    };
    assert!(matches!(game.undo(&record), Err(ChessError::IllegalPosition)));
    assert_eq!(game.position(), before);
}
