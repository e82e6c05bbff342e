use chess_rules::types::{Color, ParseError, ParseErrorKind, Piece, PieceType, Square};

const ALL_KINDS: [PieceType; 7] = [
    PieceType::Empty,
    PieceType::Pawn,
    PieceType::Knight,
    PieceType::Bishop,
    PieceType::Rook,
    PieceType::Queen,
    PieceType::King,
];

const ALL_PIECES: [Piece; 13] = [
    Piece::Empty,
    Piece::WhitePawn,
    Piece::BlackPawn,
    Piece::WhiteKnight,
    Piece::BlackKnight,
    Piece::WhiteBishop,
    Piece::BlackBishop,
    Piece::WhiteRook,
    Piece::BlackRook,
    Piece::WhiteQueen,
    Piece::BlackQueen,
    Piece::WhiteKing,
    Piece::BlackKing,
];

#[test]
fn color_opposite_and_disc() {
    assert_eq!(Color::White.opposite(), Color::Black);
    assert_eq!(Color::Black.opposite(), Color::White);
    assert_eq!(Color::White.disc(), 0);
    assert_eq!(Color::Black.disc(), 1);
}

#[test]
fn piece_type_values() {
    assert_eq!(PieceType::Pawn.value(), 1);
    assert_eq!(PieceType::Knight.value(), 3);
    assert_eq!(PieceType::Bishop.value(), 3);
    assert_eq!(PieceType::Rook.value(), 5);
    assert_eq!(PieceType::Queen.value(), 9);
    assert_eq!(PieceType::King.value(), 100);
    assert_eq!(PieceType::Empty.value(), 0);
}

#[test]
fn piece_type_letters() {
    assert_eq!(PieceType::Empty.letter(), ' ');
    assert_eq!(PieceType::Pawn.letter(), 'P');
    assert_eq!(PieceType::Knight.letter(), 'N');
    assert_eq!(PieceType::Bishop.letter(), 'B');
    assert_eq!(PieceType::Rook.letter(), 'R');
    assert_eq!(PieceType::Queen.letter(), 'Q');
    assert_eq!(PieceType::King.letter(), 'K');
}

#[test]
fn piece_type_letter_round_trip() {
    for kind in ALL_KINDS {
        assert_eq!(PieceType::from_letter(kind.letter()), Some(kind));
    }
}

#[test]
fn piece_type_from_letter_refuses_other_characters() {
    assert_eq!(PieceType::from_letter('p'), None);
    assert_eq!(PieceType::from_letter('k'), None);
    assert_eq!(PieceType::from_letter('X'), None);
    assert_eq!(PieceType::from_letter('1'), None);
    assert_eq!(PieceType::from_letter('\u{2654}'), None);
}

#[test]
fn piece_type_disc_round_trip() {
    for (i, kind) in ALL_KINDS.iter().enumerate() {
        assert_eq!(kind.disc(), i as u32);
        assert_eq!(PieceType::from_disc(i as u32), Some(*kind));
    }
}

#[test]
fn piece_type_from_disc_refuses_out_of_range() {
    assert_eq!(PieceType::from_disc(7), None);
    assert_eq!(PieceType::from_disc(8), None);
    assert_eq!(PieceType::from_disc(255), None);
    assert_eq!(PieceType::from_disc(256), None);
    assert_eq!(PieceType::from_disc(u32::MAX), None);
}

#[test]
fn piece_type_names() {
    assert_eq!(PieceType::Pawn.name(), "Pawn");
    assert_eq!(PieceType::Knight.name(), "Knight");
    assert_eq!(PieceType::Bishop.name(), "Bishop");
    assert_eq!(PieceType::Rook.name(), "Rook");
    assert_eq!(PieceType::Queen.name(), "Queen");
    assert_eq!(PieceType::King.name(), "King");
    assert_eq!(PieceType::Empty.name(), "Empty square");
}

#[test]
fn piece_default_is_empty() {
    assert_eq!(Piece::default(), Piece::Empty);
    assert_eq!(Piece::empty(), Piece::Empty);
    assert!(Piece::Empty.is_empty());
    assert!(!Piece::WhitePawn.is_empty());
}

#[test]
fn piece_codes() {
    let codes: [u32; 13] = [0, 2, 3, 4, 5, 6, 7, 8, 9, 10, 11, 12, 13];
    for (piece, code) in ALL_PIECES.iter().zip(codes.iter()) {
        assert_eq!(piece.disc(), *code);
        assert_eq!(Piece::from_disc(*code), Some(*piece));
    }
}

#[test]
fn piece_from_disc_refuses_what_encodes_nothing() {
    assert_eq!(Piece::from_disc(1), None);
    assert_eq!(Piece::from_disc(14), None);
    assert_eq!(Piece::from_disc(15), None);
    assert_eq!(Piece::from_disc(256), None);
    assert_eq!(Piece::from_disc(u32::MAX), None);
}

#[test]
fn piece_kind_and_color_by_arithmetic_on_the_code() {
    for piece in ALL_PIECES {
        assert_eq!(piece.piece_type().disc(), piece.disc() / 2);
        match piece.color() {
            None => assert_eq!(piece, Piece::Empty),
            Some(Color::White) => assert_eq!(piece.disc() % 2, 0),
            Some(Color::Black) => assert_eq!(piece.disc() % 2, 1),
        }
    }
}

#[test]
fn piece_from_type_color() {
    assert_eq!(Piece::from_type_color(PieceType::Pawn, Color::White), Piece::WhitePawn);
    assert_eq!(Piece::from_type_color(PieceType::Pawn, Color::Black), Piece::BlackPawn);
    assert_eq!(Piece::from_type_color(PieceType::King, Color::Black), Piece::BlackKing);
    assert_eq!(Piece::from_type_color(PieceType::Queen, Color::White), Piece::WhiteQueen);
    assert_eq!(Piece::from_type_color(PieceType::Empty, Color::White), Piece::Empty);
    assert_eq!(Piece::from_type_color(PieceType::Empty, Color::Black), Piece::Empty);
}

#[test]
fn piece_is_rebuilt_from_kind_and_color() {
    for piece in ALL_PIECES {
        if let Some(color) = piece.color() {
            assert_eq!(Piece::from_type_color(piece.piece_type(), color), piece);
            assert!(piece.has_color(color));
            assert!(!piece.has_color(color.opposite()));
        } else {
            assert_eq!(piece.piece_type(), PieceType::Empty);
        }
    }
}

#[test]
fn piece_letters() {
    assert_eq!(Piece::from_letter('P'), Some(Piece::WhitePawn));
    assert_eq!(Piece::from_letter('p'), Some(Piece::BlackPawn));
    assert_eq!(Piece::from_letter('N'), Some(Piece::WhiteKnight));
    assert_eq!(Piece::from_letter('q'), Some(Piece::BlackQueen));
    assert_eq!(Piece::from_letter('K'), Some(Piece::WhiteKing));
    assert_eq!(Piece::from_letter('k'), Some(Piece::BlackKing));
    assert_eq!(Piece::from_letter(' '), Some(Piece::Empty));
    assert_eq!(Piece::from_letter('x'), None);
    assert_eq!(Piece::from_letter('1'), None);
    assert_eq!(Piece::from_letter('-'), None);
    for piece in ALL_PIECES {
        assert_eq!(Piece::from_letter(piece.letter()), Some(piece));
    }
    assert_eq!(Piece::BlackRook.letter(), 'r');
    assert_eq!(Piece::WhiteRook.letter(), 'R');
}

#[test]
fn piece_values_are_signed() {
    assert_eq!(Piece::Empty.value(), 0);
    assert_eq!(Piece::WhitePawn.value(), 1);
    assert_eq!(Piece::BlackPawn.value(), -1);
    assert_eq!(Piece::WhiteKnight.value(), 3);
    assert_eq!(Piece::BlackBishop.value(), -3);
    assert_eq!(Piece::WhiteRook.value(), 5);
    assert_eq!(Piece::BlackQueen.value(), -9);
    assert_eq!(Piece::WhiteKing.value(), 100);
    assert_eq!(Piece::BlackKing.value(), -100);
}

#[test]
fn square_from_alg_known_squares() {
    assert_eq!(Square::from_alg("a8").unwrap(), Square(0));
    assert_eq!(Square::from_alg("h8").unwrap(), Square(7));
    assert_eq!(Square::from_alg("e4").unwrap(), Square(36));
    assert_eq!(Square::from_alg("a1").unwrap(), Square(56));
    assert_eq!(Square::from_alg("e1").unwrap(), Square(60));
    assert_eq!(Square::from_alg("h1").unwrap(), Square(63));
}

#[test]
fn square_to_alg_known_squares() {
    assert_eq!(Square(0).to_alg(), "a8");
    assert_eq!(Square(7).to_alg(), "h8");
    assert_eq!(Square(36).to_alg(), "e4");
    assert_eq!(Square(56).to_alg(), "a1");
    assert_eq!(Square(63).to_alg(), "h1");
}

#[test]
fn square_alg_round_trip_for_every_square() {
    for i in 0..64u8 {
        let text = Square(i).to_alg();
        assert_eq!(Square::from_alg(&text).unwrap(), Square(i));
        assert_eq!(Square::parse(&text), Ok(Square(i)));
    }
}

#[test]
fn square_parse_refuses_malformed_text() {
    for text in ["", "e", "e44", "i4", "e9", "e0", "E4", "4e", "e 4", " e4", "\u{e9}4", "e\u{e9}"] {
        assert_eq!(
            Square::parse(text),
            Err(ParseError { kind: ParseErrorKind::InvalidSquare, text: text.to_string() })
        );
        assert!(Square::from_alg(text).is_err());
    }
}

#[test]
fn square_parse_error_message() {
    let error = Square::parse("z9").unwrap_err();
    assert_eq!(error.kind, ParseErrorKind::InvalidSquare);
    assert_eq!(error.text, "z9");
    assert_eq!(error.message(), "Invalid square z9");
}

#[test]
fn square_from_alg_error_is_a_parse_error_with_the_text() {
    let error = Square::from_alg("z9").unwrap_err();
    assert_eq!(format!("{}", error), "Parse error. Invalid square z9");
}

#[test]
fn square_from_ints_file_and_rank() {
    assert_eq!(Square::from_ints(4, 4), Square(36));
    assert_eq!(Square::from_ints(0, 0), Square(0));
    assert_eq!(Square::from_ints(7, 7), Square(63));
    assert_eq!(Square(36).file(), 4);
    assert_eq!(Square(36).rank(), 4);
    assert_eq!(Square(63).file_rank(), (7, 7));
    assert_eq!(Square(8).file_rank(), (0, 1));
    for file in 0..8u8 {
        for rank in 0..8u8 {
            let square = Square::from_ints(file, rank);
            assert_eq!(square.0, rank * 8 + file);
            assert_eq!(square.file_rank(), (file, rank));
        }
    }
}
