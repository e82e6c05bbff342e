use board_game_traits::board::GameResult;
use chess_rules::chess_board::ChessBoard;
use chess_rules::chess_move::{CastlingRights, ChessMove, MoveTag};
use chess_rules::types::{Color, Piece, PieceType, Square};

fn sq(name: &str) -> Square {
    Square::parse(name).unwrap()
}

fn position(text: &str) -> ChessBoard {
    let fields: Vec<&str> = text.split(' ').collect();
    let mut squares = [Piece::Empty; 64];
    let mut i = 0usize;
    for ch in fields[0].chars() {
        if ch == '/' {
            continue;
        }
        match ch.to_digit(10) {
            Some(d) => i += d as usize,
            None => {
                squares[i] = Piece::from_letter(ch).unwrap();
                i += 1;
            }
        }
    }
    let to_move = if fields[1] == "w" { Color::White } else { Color::Black };
    let castling = CastlingRights {
        white_king_side: fields[2].contains('K'),
        white_queen_side: fields[2].contains('Q'),
        black_king_side: fields[2].contains('k'),
        black_queen_side: fields[2].contains('q'),
    };
    let en_passant = if fields[3] == "-" { None } else { Some(sq(fields[3])) };
    ChessBoard::from_parts(
        squares,
        to_move,
        castling,
        en_passant,
        fields[4].parse().unwrap(),
        fields[5].parse().unwrap(),
    )
    .unwrap()
}

fn plain(from: &str, to: &str) -> ChessMove {
    ChessMove::new(sq(from), sq(to))
}

fn tagged(from: &str, to: &str, tag: MoveTag) -> ChessMove {
    ChessMove::new_tagged(sq(from), sq(to), tag)
}

fn sorted(mut moves: Vec<ChessMove>) -> Vec<(u8, u8, Option<u32>, MoveTag)> {
    let mut keys: Vec<(u8, u8, Option<u32>, MoveTag)> = moves
        .drain(..)
        .map(|m| (m.from.0, m.to.0, m.promotion.map(|k| k.disc()), m.tag))
        .collect();
    keys.sort_by_key(|k| (k.0, k.1, k.2, k.3 as u8));
    keys
}

fn has_duplicates(moves: &[ChessMove]) -> bool {
    for i in 0..moves.len() {
        for j in 0..i {
            if moves[i] == moves[j] {
                return true;
            }
        }
    }
    false
}

fn moves_from(moves: &[ChessMove], from: &str) -> Vec<ChessMove> {
    moves.iter().filter(|m| m.from == sq(from)).cloned().collect()
}

#[test]
fn start_board_has_twenty_legal_moves() {
    let b = ChessBoard::start_board();
    let moves = b.legal_moves();
    assert_eq!(moves.len(), 20);
    assert!(!has_duplicates(&moves));
    for file in ["a", "b", "c", "d", "e", "f", "g", "h"] {
        assert!(moves.contains(&plain(&format!("{}2", file), &format!("{}3", file))));
        assert!(moves.contains(&tagged(
            &format!("{}2", file),
            &format!("{}4", file),
            MoveTag::DoublePawnPush
        )));
    }
    for (from, to) in [("b1", "a3"), ("b1", "c3"), ("g1", "f3"), ("g1", "h3")] {
        assert!(moves.contains(&plain(from, to)));
    }
    assert_eq!(sorted(b.generate_pseudo_legal()), sorted(moves));
}

#[test]
fn generation_is_deterministic() {
    let b = position("r3k2r/p1ppqpb1/bn2pnp1/3PN3/1p2P3/2N2Q1p/PPPBBPPP/R3K2R w KQkq - 0 1");
    assert_eq!(b.legal_moves(), b.legal_moves());
    assert_eq!(b.generate_pseudo_legal(), b.generate_pseudo_legal());
    assert_eq!(b.legal_moves().len(), 48);
    assert!(!has_duplicates(&b.legal_moves()));
}

#[test]
fn generate_moves_appends_the_legal_moves() {
    let b = ChessBoard::start_board();
    let mut moves = vec![plain("a1", "a1")];
    b.generate_moves(&mut moves);
    assert_eq!(moves.len(), 21);
    assert_eq!(moves[0], plain("a1", "a1"));
    assert_eq!(moves[1..].to_vec(), b.legal_moves());
}

#[test]
fn every_legal_move_can_be_played_and_taken_back() {
    for text in [
        "rnbqkbnr/pppppppp/8/8/8/8/PPPPPPPP/RNBQKBNR w KQkq - 0 1",
        "r3k2r/p1ppqpb1/bn2pnp1/3PN3/1p2P3/2N2Q1p/PPPBBPPP/R3K2R w KQkq - 0 1",
        "r3k2r/p1ppqpb1/bn2pnp1/3PN3/1p2P3/2N2Q1p/PPPBBPPP/R3K2R b KQkq - 3 7",
        "8/2p5/3p4/KP5r/1R3p1k/8/4P1P1/8 w - - 0 1",
        "r3k2r/Pppp1ppp/1b3nbN/nP6/BBP1P3/q4N2/Pp1P2PP/R2Q1RK1 w kq - 0 1",
        "rnbqkbnr/1pp1pppp/p7/3pP3/8/8/PPPP1PPP/RNBQKBNR w KQkq d6 0 3",
        "3n3k/4P3/8/8/8/8/8/7K w - - 7 1",
    ] {
        let start = position(text);
        let mut b = start;
        for m in start.legal_moves() {
            let rev = b.do_move(m);
            assert_ne!(b, start);
            assert_eq!(b.validate(), Ok(()));
            assert_eq!(b.side_to_move(), start.side_to_move().opposite());
            b.reverse_move(rev);
            assert_eq!(b, start);
        }
    }
}

#[test]
fn pawn_on_the_seventh_rank_has_four_promotions_and_no_plain_move() {
    let b = position("7k/4P3/8/8/8/8/8/7K w - - 0 1");
    let from_e7 = moves_from(&b.legal_moves(), "e7");
    assert_eq!(
        sorted(from_e7),
        sorted(vec![
            ChessMove::new_promotion(sq("e7"), sq("e8"), PieceType::Knight),
            ChessMove::new_promotion(sq("e7"), sq("e8"), PieceType::Bishop),
            ChessMove::new_promotion(sq("e7"), sq("e8"), PieceType::Rook),
            ChessMove::new_promotion(sq("e7"), sq("e8"), PieceType::Queen),
        ])
    );
    assert!(!b.legal_moves().contains(&plain("e7", "e8")));
}

#[test]
fn capturing_pawn_on_the_seventh_rank_promotes_too() {
    let b = position("3n3k/4P3/8/8/8/8/8/7K w - - 0 1");
    let from_e7 = moves_from(&b.legal_moves(), "e7");
    assert_eq!(from_e7.len(), 8);
    for to in ["e8", "d8"] {
        for kind in [PieceType::Knight, PieceType::Bishop, PieceType::Rook, PieceType::Queen] {
            assert!(from_e7.contains(&ChessMove::new_promotion(sq("e7"), sq(to), kind)));
        }
    }
}

#[test]
fn black_pawn_promotes_on_the_first_rank() {
    let b = position("7k/8/8/8/8/8/p7/7K b - - 0 1");
    let from_a2 = moves_from(&b.legal_moves(), "a2");
    assert_eq!(from_a2.len(), 4);
    for kind in [PieceType::Knight, PieceType::Bishop, PieceType::Rook, PieceType::Queen] {
        assert!(from_a2.contains(&ChessMove::new_promotion(sq("a2"), sq("a1"), kind)));
    }
}

#[test]
fn blocked_pawn_has_no_moves() {
    let b = position("7k/8/8/8/8/4n3/4P3/7K w - - 0 1");
    assert!(moves_from(&b.legal_moves(), "e2").is_empty());
    let b = position("7k/8/8/8/4n3/8/4P3/7K w - - 0 1");
    assert_eq!(moves_from(&b.legal_moves(), "e2"), vec![plain("e2", "e3")]);
}

fn castles(b: &ChessBoard) -> (bool, bool) {
    let moves = b.legal_moves();
    let (home, king_side, queen_side) = match b.side_to_move() {
        Color::White => ("e1", "g1", "c1"),
        Color::Black => ("e8", "g8", "c8"),
    };
    (
        moves.contains(&tagged(home, king_side, MoveTag::CastleKingSide)),
        moves.contains(&tagged(home, queen_side, MoveTag::CastleQueenSide)),
    )
}

#[test]
fn castling_is_offered_when_nothing_prevents_it() {
    assert_eq!(castles(&position("r3k2r/8/8/8/8/8/8/R3K2R w KQkq - 0 1")), (true, true));
    assert_eq!(castles(&position("r3k2r/8/8/8/8/8/8/R3K2R b KQkq - 0 1")), (true, true));
}

#[test]
fn castling_needs_the_right() {
    assert_eq!(castles(&position("r3k2r/8/8/8/8/8/8/R3K2R w kq - 0 1")), (false, false));
    assert_eq!(castles(&position("r3k2r/8/8/8/8/8/8/R3K2R w Kkq - 0 1")), (true, false));
    assert_eq!(castles(&position("r3k2r/8/8/8/8/8/8/R3K2R w Qkq - 0 1")), (false, true));
    assert_eq!(castles(&position("r3k2r/8/8/8/8/8/8/R3K2R b KQ - 0 1")), (false, false));
    assert_eq!(castles(&position("r3k2r/8/8/8/8/8/8/R3K2R b KQq - 0 1")), (false, true));
}

#[test]
fn castling_needs_empty_squares_between_king_and_rook() {
    assert_eq!(castles(&position("4k3/8/8/8/8/8/8/RN2K2R w KQ - 0 1")), (true, false));
    assert_eq!(castles(&position("4k3/8/8/8/8/8/8/R2QK2R w KQ - 0 1")), (true, false));
    assert_eq!(castles(&position("4k3/8/8/8/8/8/8/R3KB1R w KQ - 0 1")), (false, true));
    assert_eq!(castles(&position("4k3/8/8/8/8/8/8/R3K1NR w KQ - 0 1")), (false, true));
    assert_eq!(castles(&position("rn2k1nr/8/8/8/8/8/8/4K3 b kq - 0 1")), (false, false));
}

#[test]
fn castling_needs_unattacked_squares_for_the_king() {
    // The king is in check.
    assert_eq!(castles(&position("4r1k1/8/8/8/8/8/8/R3K2R w KQ - 0 1")), (false, false));
    // The square that the king passes is attacked.
    assert_eq!(castles(&position("5rk1/8/8/8/8/8/8/R3K2R w KQ - 0 1")), (false, true));
    assert_eq!(castles(&position("3r2k1/8/8/8/8/8/8/R3K2R w KQ - 0 1")), (true, false));
    // The square on which the king lands is attacked.
    assert_eq!(castles(&position("1k4r1/8/8/8/8/8/8/R3K2R w KQ - 0 1")), (false, true));
    assert_eq!(castles(&position("2r3k1/8/8/8/8/8/8/R3K2R w KQ - 0 1")), (true, false));
    // Attacks on the rook or on the square beside it do not matter.
    assert_eq!(castles(&position("1r4k1/8/8/8/8/8/8/R3K2R w KQ - 0 1")), (true, true));
    assert_eq!(castles(&position("r5kr/8/8/8/8/8/8/R3K2R w KQ - 0 1")), (true, true));
    // Attacks by pawns and knights count.
    assert_eq!(castles(&position("4k3/8/8/8/8/8/6p1/R3K2R w KQ - 0 1")), (false, true));
    assert_eq!(castles(&position("4k3/8/8/8/8/3n4/8/R3K2R w KQ - 0 1")), (false, false));
    assert_eq!(castles(&position("4k3/8/8/8/8/1n6/8/R3K2R w KQ - 0 1")), (true, false));
}

#[test]
fn en_passant_is_offered_right_after_the_double_push() {
    let mut b = ChessBoard::start_board();
    b.do_move(tagged("e2", "e4", MoveTag::DoublePawnPush));
    b.do_move(plain("a7", "a6"));
    b.do_move(plain("e4", "e5"));
    b.do_move(tagged("d7", "d5", MoveTag::DoublePawnPush));
    assert_eq!(b, position("rnbqkbnr/1pp1pppp/p7/3pP3/8/8/PPPP1PPP/RNBQKBNR w KQkq d6 0 3"));
    let capture = tagged("e5", "d6", MoveTag::EnPassantCapture);
    assert!(b.legal_moves().contains(&capture));
    assert_eq!(
        b.legal_moves().iter().filter(|m| m.tag == MoveTag::EnPassantCapture).count(),
        1
    );
    b.do_move(plain("a2", "a3"));
    b.do_move(plain("a6", "a5"));
    assert!(!b.legal_moves().contains(&capture));
    assert!(b.legal_moves().iter().all(|m| m.tag != MoveTag::EnPassantCapture));
}

#[test]
fn en_passant_is_not_offered_after_a_single_push() {
    let mut b = position("4k3/8/3p4/4P3/8/8/8/4K3 b - - 0 1");
    b.do_move(plain("d6", "d5"));
    assert_eq!(b.en_passant, None);
    assert!(b.legal_moves().iter().all(|m| m.tag != MoveTag::EnPassantCapture));
}

#[test]
fn en_passant_from_both_sides_of_the_pushed_pawn() {
    let b = position("4k3/8/8/2PpP3/8/8/8/4K3 w - d6 0 1");
    let moves = b.legal_moves();
    assert!(moves.contains(&tagged("c5", "d6", MoveTag::EnPassantCapture)));
    assert!(moves.contains(&tagged("e5", "d6", MoveTag::EnPassantCapture)));
    let b = position("4k3/8/8/8/2pPp3/8/8/4K3 b - d3 0 1");
    let moves = b.legal_moves();
    assert!(moves.contains(&tagged("c4", "d3", MoveTag::EnPassantCapture)));
    assert!(moves.contains(&tagged("e4", "d3", MoveTag::EnPassantCapture)));
}

#[test]
fn en_passant_that_uncovers_the_king_along_the_rank_is_not_legal() {
    let b = position("8/8/8/KPp4r/8/8/8/7k w - c6 0 1");
    let capture = tagged("b5", "c6", MoveTag::EnPassantCapture);
    assert!(b.generate_pseudo_legal().contains(&capture));
    assert!(!b.legal_moves().contains(&capture));
    assert!(b.legal_moves().contains(&plain("b5", "b6")));
}

#[test]
fn pinned_piece_stays_on_the_line_of_the_pin() {
    let b = position("4k3/4r3/8/8/8/8/4B3/4K3 w - - 0 1");
    assert!(moves_from(&b.legal_moves(), "e2").is_empty());
    assert_eq!(b.legal_moves().len(), 4);
    let b = position("4k3/4r3/8/8/8/8/4R3/4K3 w - - 0 1");
    assert_eq!(
        sorted(moves_from(&b.legal_moves(), "e2")),
        sorted(vec![
            plain("e2", "e3"),
            plain("e2", "e4"),
            plain("e2", "e5"),
            plain("e2", "e6"),
            plain("e2", "e7"),
        ])
    );
}

#[test]
fn double_check_leaves_only_king_moves() {
    let b = position("4k3/8/8/8/8/Q4n2/4r3/4K3 w - - 0 1");
    assert!(b.in_check());
    assert_eq!(
        sorted(b.legal_moves()),
        sorted(vec![plain("e1", "d1"), plain("e1", "f1"), plain("e1", "e2")])
    );
}

#[test]
fn check_must_be_answered() {
    let b = position("4k3/8/8/8/8/8/3P4/r3K3 w - - 0 1");
    assert!(b.in_check());
    assert_eq!(sorted(b.legal_moves()), sorted(vec![plain("e1", "e2"), plain("e1", "f2")]));
}

#[test]
fn game_goes_on_at_the_start() {
    let b = ChessBoard::start_board();
    assert!(!b.in_check());
    assert_eq!(b.game_result(), None);
    assert_eq!(b.evaluate(20), None);
}

#[test]
fn checkmate_is_a_win_for_the_other_side() {
    let mut b = ChessBoard::start_board();
    b.do_move(plain("f2", "f3"));
    b.do_move(tagged("e7", "e5", MoveTag::DoublePawnPush));
    b.do_move(tagged("g2", "g4", MoveTag::DoublePawnPush));
    b.do_move(plain("d8", "h4"));
    assert!(b.in_check());
    assert!(b.legal_moves().is_empty());
    assert_eq!(b.game_result(), Some(GameResult::BlackWin));

    let b = position("R5k1/5ppp/8/8/8/8/8/4K3 b - - 0 1");
    assert!(b.legal_moves().is_empty());
    assert_eq!(b.game_result(), Some(GameResult::WhiteWin));
}

#[test]
fn stalemate_is_a_draw() {
    let b = position("7k/5Q2/6K1/8/8/8/8/8 b - - 0 1");
    assert!(!b.in_check());
    assert!(b.legal_moves().is_empty());
    assert_eq!(b.game_result(), Some(GameResult::Draw));
}

#[test]
fn hundred_half_moves_without_progress_are_a_draw() {
    assert_eq!(position("4k3/8/8/8/8/8/8/4K2R w K - 99 80").game_result(), None);
    assert_eq!(
        position("4k3/8/8/8/8/8/8/4K2R w K - 100 80").game_result(),
        Some(GameResult::Draw)
    );
    assert_eq!(
        position("4k3/8/8/8/8/8/8/4K2R w K - 250 80").game_result(),
        Some(GameResult::Draw)
    );
}

#[test]
fn checkmate_comes_before_the_draw_by_the_clock() {
    let b = position("R5k1/5ppp/8/8/8/8/8/4K3 b - - 100 90");
    assert_eq!(b.game_result(), Some(GameResult::WhiteWin));
}

#[test]
fn verdict_by_the_number_of_legal_moves() {
    let quiet = position("4k3/8/8/8/8/8/8/4K2R w K - 0 1");
    assert_eq!(quiet.evaluate(0), Some(GameResult::Draw));
    assert_eq!(quiet.evaluate(1), None);
    let late = position("4k3/8/8/8/8/8/8/4K2R w K - 100 1");
    assert_eq!(late.evaluate(0), Some(GameResult::Draw));
    assert_eq!(late.evaluate(1), Some(GameResult::Draw));
    let checked = position("4k3/8/8/8/8/8/8/r3K3 w - - 0 1");
    assert_eq!(checked.evaluate(0), Some(GameResult::BlackWin));
    assert_eq!(checked.evaluate(3), None);
    let checked = position("R3k3/8/8/8/8/8/8/4K3 b - - 0 1");
    assert_eq!(checked.evaluate(0), Some(GameResult::WhiteWin));
}

#[test]
fn no_legal_move_means_the_game_is_over() {
    for text in [
        "7k/5Q2/6K1/8/8/8/8/8 b - - 0 1",
        "R5k1/5ppp/8/8/8/8/8/4K3 b - - 0 1",
        "rnb1kbnr/pppp1ppp/8/4p3/6Pq/5P2/PPPPP2P/RNBQKBNR w KQkq - 1 3",
        "7k/7P/7K/8/8/8/8/8 b - - 0 1",
    ] {
        let b = position(text);
        assert!(b.legal_moves().is_empty());
        assert!(b.game_result().is_some());
    }
}

#[test]
fn single_moves_are_judged_as_the_list_judges_them() {
    let b = ChessBoard::start_board();
    assert!(b.move_is_legal(plain("e2", "e3")));
    assert!(b.move_is_legal(tagged("e2", "e4", MoveTag::DoublePawnPush)));
    assert!(b.move_is_legal(plain("g1", "f3")));
    assert!(!b.move_is_legal(plain("e2", "e4")));
    assert!(!b.move_is_legal(plain("e2", "e5")));
    assert!(!b.move_is_legal(plain("e1", "e2")));
    assert!(!b.move_is_legal(plain("e7", "e6")));
    assert!(!b.move_is_legal(plain("a1", "a1")));
    assert!(!b.move_is_legal(tagged("e1", "g1", MoveTag::CastleKingSide)));
    assert!(!b.move_is_legal(ChessMove::new_promotion(sq("e2"), sq("e3"), PieceType::Queen)));
    let pinned = position("8/8/8/KPp4r/8/8/8/7k w - c6 0 1");
    assert!(!pinned.move_is_legal(tagged("b5", "c6", MoveTag::EnPassantCapture)));
    assert!(pinned.move_is_legal(plain("b5", "b6")));
    let promoting = position("7k/4P3/8/8/8/8/8/7K w - - 0 1");
    assert!(promoting.move_is_legal(ChessMove::new_promotion(sq("e7"), sq("e8"), PieceType::Rook)));
    assert!(!promoting.move_is_legal(ChessMove::new_promotion(sq("e7"), sq("e8"), PieceType::King)));
    assert!(!promoting.move_is_legal(ChessMove::new_promotion(sq("e7"), sq("e8"), PieceType::Pawn)));
    assert!(!promoting.move_is_legal(plain("e7", "e8")));
}

#[test]
fn same_compares_every_field() {
    let m = ChessMove::new_promotion(sq("e7"), sq("e8"), PieceType::Rook);
    assert!(m.same(m));
    assert!(!m.same(ChessMove::new_promotion(sq("e7"), sq("e8"), PieceType::Queen)));
    assert!(!m.same(ChessMove::new_promotion(sq("a7"), sq("b8"), PieceType::Rook)));
    assert!(!m.same(ChessMove::new_promotion(sq("b7"), sq("a8"), PieceType::Rook)));
    assert!(!m.same(plain("e7", "e8")));
    assert!(!plain("e2", "e4").same(tagged("e2", "e4", MoveTag::DoublePawnPush)));
    assert!(plain("e2", "e4").same(plain("e2", "e4")));
}
