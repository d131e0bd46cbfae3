use chess_position::chess::MyChess;
use chess_position::my_move::MyMove;

const START: &str = "rnbqkbnr/pppppppp/8/8/8/8/PPPPPPPP/RNBQKBNR w KQkq - 0 1";

fn count_leaves(game: &MyChess, depth: u32) -> u64 {
    let moves: Vec<MyMove> = game.legal_moves();
    if depth == 1 {
        return moves.len() as u64;
    }
    let mut total = 0;
    for m in moves.iter() {
        let mut next = game.copy();
        next.play(m).unwrap();
        total += count_leaves(&next, depth - 1);
    }
    total
}

#[test]
fn perft_depth_1() {
    assert_eq!(count_leaves(&MyChess::new(START).unwrap(), 1), 20);
}

#[test]
fn perft_depth_2() {
    assert_eq!(count_leaves(&MyChess::new(START).unwrap(), 2), 400);
}

#[test]
fn perft_depth_3() {
    assert_eq!(count_leaves(&MyChess::new(START).unwrap(), 3), 8902);
}

#[test]
fn perft_depth_4() {
    assert_eq!(count_leaves(&MyChess::new(START).unwrap(), 4), 197281);
}

#[test]
fn perft_with_castling_promotion_and_en_passant() {
    let kiwipete = "r3k2r/p1ppqpb1/bn2pnp1/3PN3/1p2P3/2N2Q1p/PPPBBPPP/R3K2R w KQkq - 0 1";
    let game = MyChess::new(kiwipete).unwrap();
    assert_eq!(count_leaves(&game, 1), 48);
    assert_eq!(count_leaves(&game, 2), 2039);
    assert_eq!(count_leaves(&game, 3), 97862);
}

#[test]
fn perft_with_promotions() {
    let game = MyChess::new("n1n5/PPPk4/8/8/8/8/4Kppp/5N1N b - - 0 1").unwrap();
    assert_eq!(count_leaves(&game, 1), 24);
    assert_eq!(count_leaves(&game, 2), 496);
    assert_eq!(count_leaves(&game, 3), 9483);
}

#[test]
fn perft_endgame_with_en_passant_pins() {
    let game = MyChess::new("8/2p5/3p4/KP5r/1R3p1k/8/4P1P1/8 w - - 0 1").unwrap();
    assert_eq!(count_leaves(&game, 1), 14);
    assert_eq!(count_leaves(&game, 2), 191);
    assert_eq!(count_leaves(&game, 3), 2812);
    assert_eq!(count_leaves(&game, 4), 43238);
}

#[test]
fn perft_with_a_king_in_check() {
    let game = MyChess::new("r3k2r/Pppp1ppp/1b3nbN/nP6/BBP1P3/q4N2/Pp1P2PP/R2Q1RK1 w kq - 0 1").unwrap();
    assert_eq!(count_leaves(&game, 1), 6);
    assert_eq!(count_leaves(&game, 2), 264);
    assert_eq!(count_leaves(&game, 3), 9467);
}

#[test]
fn perft_with_a_pawn_about_to_promote() {
    let game = MyChess::new("rnbq1k1r/pp1Pbppp/2p5/8/2B5/8/PPP1NnPP/RNBQK2R w KQ - 1 8").unwrap();
    assert_eq!(count_leaves(&game, 1), 44);
    assert_eq!(count_leaves(&game, 2), 1486);
    assert_eq!(count_leaves(&game, 3), 62379);
}

#[test]
fn perft_of_a_middle_game() {
    let game =
        MyChess::new("r4rk1/1pp1qppp/p1np1n2/2b1p1B1/2B1P1b1/P1NP1N2/1PP1QPPP/R4RK1 w - - 0 10").unwrap();
    assert_eq!(count_leaves(&game, 1), 46);
    assert_eq!(count_leaves(&game, 2), 2079);
    assert_eq!(count_leaves(&game, 3), 89890);
}
