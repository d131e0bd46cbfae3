use chess_position::chess::MyChess;
use chess_position::movement::{attackers_by_movement, is_attacked_by};
use chess_position::my_move::MyMove;
use chess_position::piece::Color;
use shakmaty::fen::Fen;
use shakmaty::zobrist::{Zobrist64, ZobristHash};
use shakmaty::{CastlingMode, Chess, EnPassantMode, Position};

const POSITIONS: [&str; 10] = [
    "rnbqkbnr/pppppppp/8/8/8/8/PPPPPPPP/RNBQKBNR w KQkq - 0 1",
    "r3k2r/p1ppqpb1/bn2pnp1/3PN3/1p2P3/2N2Q1p/PPPBBPPP/R3K2R w KQkq - 0 1",
    "8/2p5/3p4/KP5r/1R3p1k/8/4P1P1/8 w - - 0 1",
    "r3k2r/Pppp1ppp/1b3nbN/nP6/BBP1P3/q4N2/Pp1P2PP/R2Q1RK1 w kq - 0 1",
    "rnbq1k1r/pp1Pbppp/2p5/8/2B5/8/PPP1NnPP/RNBQK2R w KQ - 1 8",
    "rnbqkbnr/ppp1p1pp/8/3pPp2/8/8/PPPP1PPP/RNBQKBNR w KQkq f6 0 3",
    "n1n5/PPPk4/8/8/8/8/4Kppp/5N1N b - - 0 1",
    "rnbqkbnr/pppp1ppp/8/4p3/4P3/8/PPPP1PPP/RNBQKBNR w KQkq e6 0 2",
    "8/8/8/8/k2Pp2Q/8/8/3K4 b - d3 0 1",
    "8/8/3p4/KPp4r/1R3p1k/8/4P1P1/8 w - c6 0 2",
];

fn outside(fen: &str) -> Chess {
    Fen::from_ascii(fen.as_bytes()).unwrap().into_position(CastlingMode::Standard).unwrap()
}

fn sorted(mut texts: Vec<String>) -> Vec<String> {
    texts.sort();
    texts
}

#[test]
fn legal_moves_are_those_of_the_rules() {
    for fen in POSITIONS {
        let ours = MyChess::new(fen).unwrap().legal_moves();
        let theirs = outside(fen).legal_moves();
        let ours: Vec<String> = ours.iter().map(|m| m.uci()).collect();
        let theirs: Vec<String> =
            theirs.iter().map(|m| m.to_uci(CastlingMode::Standard).to_string()).collect();
        assert_eq!(sorted(ours), sorted(theirs), "{}", fen);
    }
}

fn compare_lists(game: &MyChess, depth: u32) {
    let fen = game.text();
    let ours: Vec<String> = game.legal_moves().iter().map(|m| m.uci()).collect();
    let theirs: Vec<String> =
        outside(&fen).legal_moves().iter().map(|m| m.to_uci(CastlingMode::Standard).to_string()).collect();
    assert_eq!(ours, theirs, "{}", fen);
    if depth > 1 {
        for m in game.legal_moves().iter() {
            let mut next = game.copy();
            next.play(m).unwrap();
            compare_lists(&next, depth - 1);
        }
    }
}

#[test]
fn legal_moves_are_those_of_the_rules_along_every_line() {
    for fen in POSITIONS {
        compare_lists(&MyChess::new(fen).unwrap(), 3);
    }
}

fn compare_attacks(game: &MyChess) {
    let board = game.position().board;
    let theirs = outside(&game.text());
    for sq in 0..64u8 {
        for by in [Color::White, Color::Black] {
            let attacker = shakmaty::Color::from_white(by.is_white());
            for occupied in [board.occupied(), 0, board.white, board.occupied() | 0x0000_00ff_ff00_0000] {
                let reported = theirs.board().attacks_to(
                    shakmaty::Square::new(sq.into()),
                    attacker,
                    shakmaty::Bitboard(occupied),
                );
                assert_eq!(attackers_by_movement(&board, sq, by, occupied), reported.0);
                assert_eq!(board.attacks_to(sq, by, occupied), reported.0);
            }
            assert_eq!(
                is_attacked_by(&board, sq, by),
                board.is_attacked(sq, by),
                "{} square {} by {:?}",
                game.text(),
                sq,
                by
            );
        }
    }
}

#[test]
fn attacks_by_movement_are_the_attacks_of_the_rules() {
    for fen in POSITIONS {
        let game = MyChess::new(fen).unwrap();
        compare_attacks(&game);
        for m in game.legal_moves().iter() {
            let mut next = game.copy();
            next.play(m).unwrap();
            compare_attacks(&next);
        }
    }
}

#[test]
fn fingerprint_is_the_zobrist_hash() {
    for fen in POSITIONS {
        let ours = MyChess::new(fen).unwrap().hash();
        let theirs: Zobrist64 = outside(fen).zobrist_hash(EnPassantMode::Legal);
        assert_eq!(ours, theirs.0, "{}", fen);
    }
}

#[test]
fn fingerprint_of_the_start_position() {
    let game = MyChess::new(POSITIONS[0]).unwrap();
    assert_eq!(game.hash(), 0x463b96181691fc9c);
}

fn walk(game: &MyChess, depth: u32) {
    let before = game.position();
    let hash_before = game.hash();
    for m in game.legal_moves().iter() {
        let mut next = game.copy();
        let record = next.play_with_modifications(m).unwrap();
        let updated = chess_position::hash::incremental_update(hash_before, &record);
        assert_eq!(updated, next.hash());
        let theirs: Zobrist64 = outside(&next.text()).zobrist_hash(EnPassantMode::Legal);
        assert_eq!(updated, theirs.0);
        let mut back = next.copy();
        back.undo(&record).unwrap();
        assert_eq!(back.position(), before);
        assert_eq!(next.position().castling_rights & !before.castling_rights, 0);
        if depth > 1 {
            walk(&next, depth - 1);
        }
    }
}

#[test]
fn every_move_can_be_taken_back_and_updates_the_fingerprint() {
    for fen in POSITIONS {
        walk(&MyChess::new(fen).unwrap(), 2);
    }
}

#[test]
fn fen_is_that_of_the_rules() {
    for fen in POSITIONS {
        let game = MyChess::new(fen).unwrap();
        let theirs = Fen::from_position(outside(fen), EnPassantMode::Always).to_string();
        assert_eq!(game.fen(), theirs);
        for m in game.legal_moves().iter() {
            let mut next = game.copy();
            next.play(m).unwrap();
            let mut pos = outside(fen);
            let mv = shakmaty::uci::UciMove::from_ascii(m.uci().as_bytes()).unwrap().to_move(&pos).unwrap();
            pos.play_unchecked(&mv);
            assert_eq!(next.result(), pos.outcome().map_or("*".to_string(), |o| o.as_str().to_string()));
            assert_eq!(next.is_game_over(), pos.is_game_over());
            assert_eq!(next.ep_square(), pos.maybe_ep_square().map_or(-1, i32::from));
            assert_eq!(next.fen(), Fen::from_position(pos, EnPassantMode::Always).to_string());
        }
    }
}

#[test]
fn moves_read_from_text_are_the_listed_moves() {
    for fen in POSITIONS {
        let game = MyChess::new(fen).unwrap();
        for m in game.legal_moves().iter() {
            let read = MyMove::new(&m.uci(), &game).unwrap();
            assert!(read == *m);
            assert_eq!(read.uci(), m.uci());
            assert_eq!(read.chess_move(), m.chess_move());
        }
    }
}
