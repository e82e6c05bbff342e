use chess_rules::chess_board::{ChessBoard, PositionError};
use chess_rules::chess_move::{CastlingRights, ChessMove, MoveTag};
use chess_rules::types::{Color, Piece, PieceType, Square};

fn sq(name: &str) -> Square {
    Square::parse(name).unwrap()
}

fn parts(text: &str) -> ([Piece; 64], Color, CastlingRights, Option<Square>, u32, u32) {
    let fields: Vec<&str> = text.split(' ').collect();
    let mut squares = [Piece::Empty; 64];
    let mut i = 0usize;
    for ch in fields[0].chars() {
        if ch == '/' {
            continue;
        }
        match ch.to_digit(10) {
            Some(d) => i += d as usize,
            None => {
                squares[i] = Piece::from_letter(ch).unwrap();
                i += 1;
            }
        }
    }
    let to_move = if fields[1] == "w" { Color::White } else { Color::Black };
    let castling = CastlingRights {
        white_king_side: fields[2].contains('K'),
        white_queen_side: fields[2].contains('Q'),
        black_king_side: fields[2].contains('k'),
        black_queen_side: fields[2].contains('q'),
    };
    let en_passant = if fields[3] == "-" { None } else { Some(sq(fields[3])) };
    (squares, to_move, castling, en_passant, fields[4].parse().unwrap(), fields[5].parse().unwrap())
}

fn try_board(text: &str) -> Result<ChessBoard, PositionError> {
    let p = parts(text);
    ChessBoard::from_parts(p.0, p.1, p.2, p.3, p.4, p.5)
}

fn board(text: &str) -> ChessBoard {
    try_board(text).unwrap()
}

fn tagged(from: &str, to: &str, tag: MoveTag) -> ChessMove {
    ChessMove::new_tagged(sq(from), sq(to), tag)
}

#[test]
fn start_board_layout() {
    let b = ChessBoard::start_board();
    assert_eq!(b, board("rnbqkbnr/pppppppp/8/8/8/8/PPPPPPPP/RNBQKBNR w KQkq - 0 1"));
    assert_eq!(b.piece_at(sq("e1")), Piece::WhiteKing);
    assert_eq!(b.piece_at(sq("d1")), Piece::WhiteQueen);
    assert_eq!(b.piece_at(sq("e8")), Piece::BlackKing);
    assert_eq!(b.piece_at(sq("a8")), Piece::BlackRook);
    assert_eq!(b.piece_at(sq("g1")), Piece::WhiteKnight);
    assert_eq!(b.piece_at(sq("c8")), Piece::BlackBishop);
    assert_eq!(b.piece_at(sq("e2")), Piece::WhitePawn);
    assert_eq!(b.piece_at(sq("e7")), Piece::BlackPawn);
    assert_eq!(b.piece_at(sq("e4")), Piece::Empty);
    assert_eq!(b.side_to_move(), Color::White);
    assert_eq!(b.castling, CastlingRights::all());
    assert_eq!(b.en_passant, None);
    assert_eq!(b.half_move_clock, 0);
    assert_eq!(b.full_move, 1);
    assert_eq!(b.validate(), Ok(()));
}

#[test]
fn king_squares_of_the_start_board() {
    let b = ChessBoard::start_board();
    assert_eq!(b.king_square(Color::White), sq("e1"));
    assert_eq!(b.king_square(Color::Black), sq("e8"));
    assert_eq!(b.sole_king(Color::White), Some(sq("e1")));
    assert_eq!(b.sole_king(Color::Black), Some(sq("e8")));
}

#[test]
fn attacked_squares_of_the_start_board() {
    let b = ChessBoard::start_board();
    assert!(b.is_square_attacked(sq("e3"), Color::White));
    assert!(b.is_square_attacked(sq("a3"), Color::White));
    assert!(b.is_square_attacked(sq("f3"), Color::White));
    assert!(b.is_square_attacked(sq("d2"), Color::White));
    assert!(!b.is_square_attacked(sq("e4"), Color::White));
    assert!(!b.is_square_attacked(sq("e6"), Color::White));
    assert!(b.is_square_attacked(sq("e6"), Color::Black));
    assert!(b.is_square_attacked(sq("h6"), Color::Black));
    assert!(!b.is_square_attacked(sq("e5"), Color::Black));
    assert!(!b.is_square_attacked(sq("e3"), Color::Black));
}

#[test]
fn sliding_pieces_are_blocked() {
    let b = ChessBoard::start_board();
    assert!(b.attacks(sq("a1"), sq("a2")));
    assert!(b.attacks(sq("a1"), sq("b1")));
    assert!(!b.attacks(sq("a1"), sq("a3")));
    assert!(!b.attacks(sq("a1"), sq("c1")));
    assert!(!b.attacks(sq("c1"), sq("a3")));
    assert!(b.attacks(sq("c1"), sq("b2")));
    assert!(!b.attacks(sq("d1"), sq("d3")));
    assert!(!b.attacks(sq("e4"), sq("e5")));
    assert!(b.is_path_clear(sq("a3"), sq("h3")));
    assert!(b.is_path_clear(sq("a2"), sq("a7")));
    assert!(!b.is_path_clear(sq("a1"), sq("a8")));
    assert!(!b.is_path_clear(sq("a1"), sq("h8")));
    let open = board("4k3/8/8/8/3Q4/8/8/4K3 w - - 0 1");
    for target in ["d8", "d1", "a4", "h4", "a1", "h8", "a7", "g1"] {
        assert!(open.attacks(sq("d4"), sq(target)));
    }
    for target in ["d4", "e6", "c2", "b8", "h1"] {
        assert!(!open.attacks(sq("d4"), sq(target)));
    }
}

#[test]
fn pawns_attack_diagonally_forward() {
    let b = board("4k3/8/8/3p4/4P3/8/8/4K3 w - - 0 1");
    assert!(b.attacks(sq("e4"), sq("d5")));
    assert!(b.attacks(sq("e4"), sq("f5")));
    assert!(!b.attacks(sq("e4"), sq("e5")));
    assert!(!b.attacks(sq("e4"), sq("d3")));
    assert!(b.attacks(sq("d5"), sq("e4")));
    assert!(b.attacks(sq("d5"), sq("c4")));
    assert!(!b.attacks(sq("d5"), sq("d4")));
    assert!(!b.attacks(sq("d5"), sq("e6")));
}

#[test]
fn double_pawn_push_sets_the_en_passant_target() {
    let mut b = ChessBoard::start_board();
    let before = b;
    let rev = b.do_move(tagged("e2", "e4", MoveTag::DoublePawnPush));
    assert_eq!(b, board("rnbqkbnr/pppppppp/8/8/4P3/8/PPPP1PPP/RNBQKBNR b KQkq e3 0 1"));
    assert_eq!(rev.captured, Piece::Empty);
    assert_eq!(rev.en_passant, None);
    b.reverse_move(rev);
    assert_eq!(b, before);
}

#[test]
fn any_other_move_clears_the_en_passant_target() {
    let mut b = board("rnbqkbnr/pppppppp/8/8/4P3/8/PPPP1PPP/RNBQKBNR b KQkq e3 0 1");
    let before = b;
    let rev = b.do_move(ChessMove::new(sq("g8"), sq("f6")));
    assert_eq!(b, board("rnbqkb1r/pppppppp/5n2/8/4P3/8/PPPP1PPP/RNBQKBNR w KQkq - 1 2"));
    assert_eq!(rev.en_passant, Some(sq("e3")));
    b.reverse_move(rev);
    assert_eq!(b, before);
}

#[test]
fn en_passant_capture_removes_the_pawn_behind_the_destination() {
    let mut b = board("rnbqkbnr/1pp1pppp/p7/3pP3/8/8/PPPP1PPP/RNBQKBNR w KQkq d6 0 3");
    let before = b;
    let rev = b.do_move(tagged("e5", "d6", MoveTag::EnPassantCapture));
    assert_eq!(b, board("rnbqkbnr/1pp1pppp/p2P4/8/8/8/PPPP1PPP/RNBQKBNR b KQkq - 0 3"));
    assert_eq!(b.piece_at(sq("d5")), Piece::Empty);
    assert_eq!(b.piece_at(sq("d6")), Piece::WhitePawn);
    assert_eq!(rev.captured, Piece::BlackPawn);
    assert_eq!(rev.capture_square, sq("d5"));
    b.reverse_move(rev);
    assert_eq!(b, before);
}

#[test]
fn castling_relocates_the_rook() {
    let start = board("r3k2r/8/8/8/8/8/8/R3K2R w KQkq - 0 1");
    let mut b = start;
    let rev = b.do_move(tagged("e1", "g1", MoveTag::CastleKingSide));
    assert_eq!(b, board("r3k2r/8/8/8/8/8/8/R4RK1 b kq - 1 1"));
    b.reverse_move(rev);
    assert_eq!(b, start);
    let rev = b.do_move(tagged("e1", "c1", MoveTag::CastleQueenSide));
    assert_eq!(b, board("r3k2r/8/8/8/8/8/8/2KR3R b kq - 1 1"));
    b.reverse_move(rev);
    assert_eq!(b, start);

    let start = board("r3k2r/8/8/8/8/8/8/R3K2R b KQkq - 0 1");
    let mut b = start;
    let rev = b.do_move(tagged("e8", "g8", MoveTag::CastleKingSide));
    assert_eq!(b, board("r4rk1/8/8/8/8/8/8/R3K2R w KQ - 1 2"));
    b.reverse_move(rev);
    assert_eq!(b, start);
    let rev = b.do_move(tagged("e8", "c8", MoveTag::CastleQueenSide));
    assert_eq!(b, board("2kr3r/8/8/8/8/8/8/R3K2R w KQ - 1 2"));
    b.reverse_move(rev);
    assert_eq!(b, start);
}

#[test]
fn castling_rights_are_lost_by_king_and_rook_moves() {
    let start = board("r3k2r/8/8/8/8/8/8/R3K2R w KQkq - 0 1");
    let mut b = start;
    let rev = b.do_move(ChessMove::new(sq("e1"), sq("e2")));
    assert_eq!(b, board("r3k2r/8/8/8/8/8/4K3/R6R b kq - 1 1"));
    b.reverse_move(rev);
    assert_eq!(b, start);
    let rev = b.do_move(ChessMove::new(sq("h1"), sq("h4")));
    assert_eq!(b, board("r3k2r/8/8/8/7R/8/8/R3K3 b Qkq - 1 1"));
    b.reverse_move(rev);
    assert_eq!(b, start);
    let rev = b.do_move(ChessMove::new(sq("a1"), sq("b1")));
    assert_eq!(b, board("r3k2r/8/8/8/8/8/8/1R2K2R b Kkq - 1 1"));
    b.reverse_move(rev);
    assert_eq!(b, start);
}

#[test]
fn castling_right_is_lost_by_a_capture_on_the_rook_square() {
    let start = board("r3k2r/8/8/8/8/8/8/R3K2R w KQkq - 4 1");
    let mut b = start;
    let rev = b.do_move(ChessMove::new(sq("h1"), sq("h8")));
    assert_eq!(b, board("r3k2R/8/8/8/8/8/8/R3K3 b Qq - 0 1"));
    assert_eq!(rev.captured, Piece::BlackRook);
    assert_eq!(rev.half_move_clock, 4);
    b.reverse_move(rev);
    assert_eq!(b, start);
}

#[test]
fn promotion_places_the_chosen_piece() {
    let start = board("3n3k/4P3/8/8/8/8/8/7K w - - 7 1");
    for (kind, piece) in [
        (PieceType::Knight, 'N'),
        (PieceType::Bishop, 'B'),
        (PieceType::Rook, 'R'),
        (PieceType::Queen, 'Q'),
    ] {
        let mut b = start;
        let rev = b.do_move(ChessMove::new_promotion(sq("e7"), sq("e8"), kind));
        assert_eq!(b.piece_at(sq("e8")), Piece::from_letter(piece).unwrap());
        assert_eq!(b.piece_at(sq("e7")), Piece::Empty);
        assert_eq!(b.half_move_clock, 0);
        assert!(rev.promoted);
        b.reverse_move(rev);
        assert_eq!(b, start);

        let rev = b.do_move(ChessMove::new_promotion(sq("e7"), sq("d8"), kind));
        assert_eq!(b.piece_at(sq("d8")), Piece::from_letter(piece).unwrap());
        assert_eq!(rev.captured, Piece::BlackKnight);
        b.reverse_move(rev);
        assert_eq!(b, start);
    }
}

#[test]
fn clocks_count_half_moves_and_full_moves() {
    let mut b = ChessBoard::start_board();
    b.do_move(ChessMove::new(sq("g1"), sq("f3")));
    assert_eq!((b.half_move_clock, b.full_move), (1, 1));
    b.do_move(ChessMove::new(sq("g8"), sq("f6")));
    assert_eq!((b.half_move_clock, b.full_move), (2, 2));
    b.do_move(ChessMove::new(sq("e2"), sq("e3")));
    assert_eq!((b.half_move_clock, b.full_move), (0, 2));
    b.do_move(ChessMove::new(sq("f6"), sq("g4")));
    assert_eq!((b.half_move_clock, b.full_move), (1, 3));
    b.do_move(ChessMove::new(sq("d1"), sq("g4")));
    assert_eq!((b.half_move_clock, b.full_move), (0, 3));
    assert_eq!(b.side_to_move(), Color::Black);
}

#[test]
fn counters_stop_at_their_largest_value() {
    let mut p = parts("4k3/8/8/8/8/8/8/4K2R b K - 0 1");
    p.4 = u32::MAX;
    p.5 = u32::MAX;
    let start = ChessBoard::from_parts(p.0, p.1, p.2, p.3, p.4, p.5).unwrap();
    let mut b = start;
    let rev = b.do_move(ChessMove::new(sq("e8"), sq("d8")));
    assert_eq!((b.half_move_clock, b.full_move), (u32::MAX, u32::MAX));
    b.reverse_move(rev);
    assert_eq!(b, start);
}

#[test]
fn moves_are_taken_back_in_reverse_order() {
    let mut b = ChessBoard::start_board();
    let start = b;
    let line = [
        tagged("e2", "e4", MoveTag::DoublePawnPush),
        tagged("d7", "d5", MoveTag::DoublePawnPush),
        ChessMove::new(sq("e4"), sq("d5")),
        ChessMove::new(sq("d8"), sq("d5")),
        ChessMove::new(sq("b1"), sq("c3")),
        ChessMove::new(sq("d5"), sq("e5")),
    ];
    let mut records = Vec::new();
    let mut states = Vec::new();
    for m in line {
        states.push(b);
        records.push(b.do_move(m));
    }
    assert_eq!(b, board("rnb1kbnr/ppp1pppp/8/4q3/8/2N5/PPPP1PPP/R1BQKBNR w KQkq - 2 4"));
    while let Some(rev) = records.pop() {
        b.reverse_move(rev);
        assert_eq!(b, states.pop().unwrap());
    }
    assert_eq!(b, start);
}

#[test]
fn positions_without_exactly_one_king_each_are_refused() {
    assert_eq!(try_board("8/8/8/8/8/8/8/4K3 w - - 0 1"), Err(PositionError::Kings));
    assert_eq!(try_board("4k3/8/8/8/8/8/8/8 w - - 0 1"), Err(PositionError::Kings));
    assert_eq!(try_board("4k3/8/8/8/8/8/8/3KK3 w - - 0 1"), Err(PositionError::Kings));
    assert_eq!(try_board("3kk3/8/8/8/8/8/8/4K3 w - - 0 1"), Err(PositionError::Kings));
    assert_eq!(try_board("8/8/8/8/8/8/8/8 w - - 0 1"), Err(PositionError::Kings));
    assert_eq!(
        board("4k3/8/8/8/8/8/8/3KK3 w - - 0 1".replace("3KK3", "4K3").as_str()).sole_king(Color::White),
        Some(sq("e1"))
    );
}

#[test]
fn castling_rights_without_king_and_rook_at_home_are_refused() {
    assert_eq!(try_board("4k3/8/8/8/8/8/8/4K3 w K - 0 1"), Err(PositionError::Castling));
    assert_eq!(try_board("4k3/8/8/8/8/8/8/R3K3 w K - 0 1"), Err(PositionError::Castling));
    assert_eq!(try_board("4k3/8/8/8/8/8/8/R2K3R w Q - 0 1"), Err(PositionError::Castling));
    assert_eq!(try_board("r3k3/8/8/8/8/8/8/4K3 w k - 0 1"), Err(PositionError::Castling));
    assert_eq!(try_board("4k2R/8/8/8/8/8/8/4K3 w k - 0 1"), Err(PositionError::Castling));
    assert!(try_board("r3k3/8/8/8/8/8/8/4K2R w Kq - 0 1").is_ok());
}

#[test]
fn en_passant_targets_that_no_pawn_passed_are_refused() {
    assert_eq!(try_board("4k3/8/8/8/8/8/8/4K3 w - e6 0 1"), Err(PositionError::EnPassant));
    assert_eq!(try_board("4k3/8/8/4p3/8/8/8/4K3 w - e3 0 1"), Err(PositionError::EnPassant));
    assert_eq!(try_board("4k3/8/8/4p3/8/8/8/4K3 b - e6 0 1"), Err(PositionError::EnPassant));
    assert_eq!(try_board("4k3/8/4n3/4p3/8/8/8/4K3 w - e6 0 1"), Err(PositionError::EnPassant));
    assert_eq!(try_board("4k3/8/8/4P3/8/8/8/4K3 w - e6 0 1"), Err(PositionError::EnPassant));
    assert!(try_board("4k3/8/8/4p3/8/8/8/4K3 w - e6 0 1").is_ok());
    assert!(try_board("4k3/8/8/8/4P3/8/8/4K3 b - e3 0 1").is_ok());
    let p = parts("4k3/8/8/4p3/8/8/8/4K3 w - - 0 1");
    assert_eq!(
        ChessBoard::from_parts(p.0, p.1, p.2, Some(Square(200)), p.4, p.5),
        Err(PositionError::EnPassant)
    );
}

#[test]
fn positions_in_which_the_king_could_be_captured_are_refused() {
    assert_eq!(try_board("4k3/8/8/8/8/8/8/4K2R w - - 0 1").map(|_| ()), Ok(()));
    assert_eq!(try_board("4k3/8/8/8/8/8/8/4RK2 w - - 0 1"), Err(PositionError::KingCapturable));
    assert_eq!(try_board("4k3/8/8/8/8/8/8/4RK2 b - - 0 1").map(|_| ()), Ok(()));
    assert_eq!(try_board("8/8/8/8/8/8/8/4Kk2 w - - 0 1"), Err(PositionError::KingCapturable));
}
