//! Colors, piece kinds, pieces and squares.
//!
//! Squares are numbered 0 to 63 from a8 to h1: the file of a square is its
//! index modulo 8 (file a is 0) and its rank is its index divided by 8, where
//! rank 0 is the board's eighth rank.

use pgn_traits::pgn;
use vstd::prelude::*;
use vstd::string::*;

verus! {

/// One of the two sides. It stands for `board_game_traits::board::Color`,
/// whose declaration the verifier does not take in.
#[derive(Clone, Copy, Debug, PartialEq, Eq, Structural, Hash)]
pub enum Color {
    White,
    Black,
}

impl Color {
    /// The opposing side.
    pub open spec fn other(self) -> Color {
        match self {
            Color::White => Color::Black,
            Color::Black => Color::White,
        }
    }

    /// The opposing side.
    pub fn opposite(self) -> (r: Color)
        ensures
            r == self.other(),
            r != self,
    {
        match self {
            Color::White => Color::Black,
            Color::Black => Color::White,
        }
    }

    /// 0 for white, 1 for black.
    pub fn disc(self) -> (r: usize)
        ensures
            r == (if self == Color::White { 0usize } else { 1usize }),
    {
        match self {
            Color::White => 0,
            Color::Black => 1,
        }
    }
}

/// What stands on a square, without its color.
#[derive(Clone, Copy, Debug, PartialEq, Eq, Structural, Hash, PartialOrd, Ord)]
pub enum PieceType {
    Empty,
    Pawn,
    Knight,
    Bishop,
    Rook,
    Queen,
    King,
}

impl PieceType {
    /// The number that encodes a kind: 0 for `Empty` up to 6 for `King`.
    pub open spec fn spec_disc(self) -> u32 {
        match self {
            PieceType::Empty => 0,
            PieceType::Pawn => 1,
            PieceType::Knight => 2,
            PieceType::Bishop => 3,
            PieceType::Rook => 4,
            PieceType::Queen => 5,
            PieceType::King => 6,
        }
    }

    /// The kind that a number encodes, if any.
    pub open spec fn spec_from_disc(disc: u32) -> Option<PieceType> {
        if disc == 0 {
            Some(PieceType::Empty)
        } else if disc == 1 {
            Some(PieceType::Pawn)
        } else if disc == 2 {
            Some(PieceType::Knight)
        } else if disc == 3 {
            Some(PieceType::Bishop)
        } else if disc == 4 {
            Some(PieceType::Rook)
        } else if disc == 5 {
            Some(PieceType::Queen)
        } else if disc == 6 {
            Some(PieceType::King)
        } else {
            None
        }
    }

    /// The material weight of a kind.
    pub open spec fn spec_value(self) -> u32 {
        match self {
            PieceType::Pawn => 1,
            PieceType::Knight => 3,
            PieceType::Bishop => 3,
            PieceType::Rook => 5,
            PieceType::Queen => 9,
            PieceType::King => 100,
            PieceType::Empty => 0,
        }
    }

    /// The upper-case notation letter of a kind, a space for `Empty`.
    pub open spec fn spec_letter(self) -> char {
        match self {
            PieceType::Empty => ' ',
            PieceType::Pawn => 'P',
            PieceType::Knight => 'N',
            PieceType::Bishop => 'B',
            PieceType::Rook => 'R',
            PieceType::Queen => 'Q',
            PieceType::King => 'K',
        }
    }

    /// The kind that an upper-case letter or a space denotes, if any.
    pub open spec fn spec_from_letter(ch: char) -> Option<PieceType> {
        if ch == ' ' {
            Some(PieceType::Empty)
        } else if ch == 'P' {
            Some(PieceType::Pawn)
        } else if ch == 'N' {
            Some(PieceType::Knight)
        } else if ch == 'B' {
            Some(PieceType::Bishop)
        } else if ch == 'R' {
            Some(PieceType::Rook)
        } else if ch == 'Q' {
            Some(PieceType::Queen)
        } else if ch == 'K' {
            Some(PieceType::King)
        } else {
            None
        }
    }

    /// True of the four kinds a pawn may promote to.
    pub open spec fn is_promotion_kind(self) -> bool {
        self == PieceType::Knight || self == PieceType::Bishop || self == PieceType::Rook || self
            == PieceType::Queen
    }

    /// The material weight: 1, 3, 3, 5, 9 and 100 from pawn to king, 0 for `Empty`.
    #[verifier::when_used_as_spec(spec_value)]
    pub fn value(self) -> (r: u32)
        ensures
            r == self.spec_value(),
    {
        match self {
            PieceType::Pawn => 1,
            PieceType::Knight => 3,
            PieceType::Bishop => 3,
            PieceType::Rook => 5,
            PieceType::Queen => 9,
            PieceType::King => 100,
            PieceType::Empty => 0,
        }
    }

    /// The upper-case notation letter, a space for `Empty`.
    #[verifier::when_used_as_spec(spec_letter)]
    pub fn letter(self) -> (r: char)
        ensures
            r == self.spec_letter(),
    {
        match self {
            PieceType::Empty => ' ',
            PieceType::Pawn => 'P',
            PieceType::Knight => 'N',
            PieceType::Bishop => 'B',
            PieceType::Rook => 'R',
            PieceType::Queen => 'Q',
            PieceType::King => 'K',
        }
    }

    /// Reads an upper-case notation letter or a space; any other character gives `None`.
    pub fn from_letter(ch: char) -> (r: Option<PieceType>)
        ensures
            r == Self::spec_from_letter(ch),
            r is Some <==> (ch == ' ' || ch == 'P' || ch == 'N' || ch == 'B' || ch == 'R' || ch
                == 'Q' || ch == 'K'),
            r is Some ==> r->Some_0.spec_letter() == ch,
    {
        match ch {
            ' ' => Some(PieceType::Empty),
            'P' => Some(PieceType::Pawn),
            'N' => Some(PieceType::Knight),
            'B' => Some(PieceType::Bishop),
            'R' => Some(PieceType::Rook),
            'Q' => Some(PieceType::Queen),
            'K' => Some(PieceType::King),
            _ => None,
        }
    }

    /// The number that encodes this kind.
    #[verifier::when_used_as_spec(spec_disc)]
    pub fn disc(self) -> (r: u32)
        ensures
            r == self.spec_disc(),
            r <= 6,
    {
        match self {
            PieceType::Empty => 0,
            PieceType::Pawn => 1,
            PieceType::Knight => 2,
            PieceType::Bishop => 3,
            PieceType::Rook => 4,
            PieceType::Queen => 5,
            PieceType::King => 6,
        }
    }

    /// Decodes a kind from its number; a number above 6 encodes nothing.
    pub fn from_disc(disc: u32) -> (r: Option<PieceType>)
        ensures
            r == Self::spec_from_disc(disc),
            r is Some <==> disc <= 6,
            r is Some ==> r->Some_0.spec_disc() == disc,
    {
        match disc {
            0 => Some(PieceType::Empty),
            1 => Some(PieceType::Pawn),
            2 => Some(PieceType::Knight),
            3 => Some(PieceType::Bishop),
            4 => Some(PieceType::Rook),
            5 => Some(PieceType::Queen),
            6 => Some(PieceType::King),
            _ => None,
        }
    }

    /// The English name of the kind.
    pub fn name(self) -> (r: &'static str)
        ensures
            r@ == (match self {
                PieceType::Pawn => "Pawn"@,
                PieceType::Knight => "Knight"@,
                PieceType::Bishop => "Bishop"@,
                PieceType::Rook => "Rook"@,
                PieceType::Queen => "Queen"@,
                PieceType::King => "King"@,
                PieceType::Empty => "Empty square"@,
            }),
    {
        match self {
            PieceType::Pawn => "Pawn",
            PieceType::Knight => "Knight",
            PieceType::Bishop => "Bishop",
            PieceType::Rook => "Rook",
            PieceType::Queen => "Queen",
            PieceType::King => "King",
            PieceType::Empty => "Empty square",
        }
    }

    /// Decoding undoes encoding, and a letter read back gives the kind it was written for.
    pub proof fn lemma_round_trips(self)
        ensures
            Self::spec_from_disc(self.spec_disc()) == Some(self),
            Self::spec_from_letter(self.spec_letter()) == Some(self),
    {
    }
}

/// A piece with its color, or the empty square.
#[derive(Clone, Copy, Debug, PartialEq, Eq, Structural, Hash)]
pub enum Piece {
    Empty,
    WhitePawn,
    BlackPawn,
    WhiteKnight,
    BlackKnight,
    WhiteBishop,
    BlackBishop,
    WhiteRook,
    BlackRook,
    WhiteQueen,
    BlackQueen,
    WhiteKing,
    BlackKing,
}

impl Default for Piece {
    /// The empty square.
    fn default() -> (r: Piece)
        ensures
            r == Piece::Empty,
    {
        Piece::Empty
    }
}

impl Piece {
    /// The kind of the piece.
    pub open spec fn spec_piece_type(self) -> PieceType {
        match self {
            Piece::Empty => PieceType::Empty,
            Piece::WhitePawn | Piece::BlackPawn => PieceType::Pawn,
            Piece::WhiteKnight | Piece::BlackKnight => PieceType::Knight,
            Piece::WhiteBishop | Piece::BlackBishop => PieceType::Bishop,
            Piece::WhiteRook | Piece::BlackRook => PieceType::Rook,
            Piece::WhiteQueen | Piece::BlackQueen => PieceType::Queen,
            Piece::WhiteKing | Piece::BlackKing => PieceType::King,
        }
    }

    /// The color of the piece; the empty square has none.
    pub open spec fn spec_color(self) -> Option<Color> {
        match self {
            Piece::Empty => None,
            Piece::WhitePawn | Piece::WhiteKnight | Piece::WhiteBishop | Piece::WhiteRook
            | Piece::WhiteQueen | Piece::WhiteKing => Some(Color::White),
            Piece::BlackPawn | Piece::BlackKnight | Piece::BlackBishop | Piece::BlackRook
            | Piece::BlackQueen | Piece::BlackKing => Some(Color::Black),
        }
    }

    /// True of the empty square.
    pub open spec fn spec_is_empty(self) -> bool {
        self == Piece::Empty
    }

    /// The piece of a kind and a color; the kind `Empty` gives the empty square
    /// whatever the color.
    pub open spec fn spec_from_type_color(piece_type: PieceType, color: Color) -> Piece {
        match (piece_type, color) {
            (PieceType::Empty, _) => Piece::Empty,
            (PieceType::Pawn, Color::White) => Piece::WhitePawn,
            (PieceType::Pawn, Color::Black) => Piece::BlackPawn,
            (PieceType::Knight, Color::White) => Piece::WhiteKnight,
            (PieceType::Knight, Color::Black) => Piece::BlackKnight,
            (PieceType::Bishop, Color::White) => Piece::WhiteBishop,
            (PieceType::Bishop, Color::Black) => Piece::BlackBishop,
            (PieceType::Rook, Color::White) => Piece::WhiteRook,
            (PieceType::Rook, Color::Black) => Piece::BlackRook,
            (PieceType::Queen, Color::White) => Piece::WhiteQueen,
            (PieceType::Queen, Color::Black) => Piece::BlackQueen,
            (PieceType::King, Color::White) => Piece::WhiteKing,
            (PieceType::King, Color::Black) => Piece::BlackKing,
        }
    }

    /// The compact code of a piece: twice the code of its kind, plus one for
    /// black. The codes are 0 and 2 to 13.
    pub open spec fn spec_disc(self) -> u32 {
        match self {
            Piece::Empty => 0,
            Piece::WhitePawn => 2,
            Piece::BlackPawn => 3,
            Piece::WhiteKnight => 4,
            Piece::BlackKnight => 5,
            Piece::WhiteBishop => 6,
            Piece::BlackBishop => 7,
            Piece::WhiteRook => 8,
            Piece::BlackRook => 9,
            Piece::WhiteQueen => 10,
            Piece::BlackQueen => 11,
            Piece::WhiteKing => 12,
            Piece::BlackKing => 13,
        }
    }

    /// The piece that a compact code stands for, if any.
    pub open spec fn spec_from_disc(disc: u32) -> Option<Piece> {
        if disc == 1 || disc > 13 {
            None
        } else {
            match PieceType::spec_from_disc(disc / 2) {
                Some(kind) => Some(
                    Self::spec_from_type_color(
                        kind,
                        if disc % 2 == 0 {
                            Color::White
                        } else {
                            Color::Black
                        },
                    ),
                ),
                None => None,
            }
        }
    }

    /// The letter of a piece: that of its kind, in lower case for black.
    pub open spec fn spec_letter(self) -> char {
        match self {
            Piece::Empty => ' ',
            Piece::WhitePawn => 'P',
            Piece::BlackPawn => 'p',
            Piece::WhiteKnight => 'N',
            Piece::BlackKnight => 'n',
            Piece::WhiteBishop => 'B',
            Piece::BlackBishop => 'b',
            Piece::WhiteRook => 'R',
            Piece::BlackRook => 'r',
            Piece::WhiteQueen => 'Q',
            Piece::BlackQueen => 'q',
            Piece::WhiteKing => 'K',
            Piece::BlackKing => 'k',
        }
    }

    /// The piece that a letter denotes, if any.
    pub open spec fn spec_from_letter(ch: char) -> Option<Piece> {
        if ch == ' ' {
            Some(Piece::Empty)
        } else if ch == 'P' {
            Some(Piece::WhitePawn)
        } else if ch == 'p' {
            Some(Piece::BlackPawn)
        } else if ch == 'N' {
            Some(Piece::WhiteKnight)
        } else if ch == 'n' {
            Some(Piece::BlackKnight)
        } else if ch == 'B' {
            Some(Piece::WhiteBishop)
        } else if ch == 'b' {
            Some(Piece::BlackBishop)
        } else if ch == 'R' {
            Some(Piece::WhiteRook)
        } else if ch == 'r' {
            Some(Piece::BlackRook)
        } else if ch == 'Q' {
            Some(Piece::WhiteQueen)
        } else if ch == 'q' {
            Some(Piece::BlackQueen)
        } else if ch == 'K' {
            Some(Piece::WhiteKing)
        } else if ch == 'k' {
            Some(Piece::BlackKing)
        } else {
            None
        }
    }

    /// The signed material weight: that of the kind, negated for black.
    pub open spec fn spec_value(self) -> i32 {
        match self.spec_color() {
            None => 0i32,
            Some(Color::White) => self.spec_piece_type().spec_value() as i32,
            Some(Color::Black) => (-(self.spec_piece_type().spec_value() as int)) as i32,
        }
    }

    /// Reads a piece letter: an upper-case letter is a white piece, a
    /// lower-case letter a black one, a space the empty square.
    pub fn from_letter(ch: char) -> (r: Option<Piece>)
        ensures
            r == Self::spec_from_letter(ch),
            r is Some ==> r->Some_0.spec_letter() == ch,
    {
        match ch {
            ' ' => Some(Piece::Empty),
            'P' => Some(Piece::WhitePawn),
            'p' => Some(Piece::BlackPawn),
            'N' => Some(Piece::WhiteKnight),
            'n' => Some(Piece::BlackKnight),
            'B' => Some(Piece::WhiteBishop),
            'b' => Some(Piece::BlackBishop),
            'R' => Some(Piece::WhiteRook),
            'r' => Some(Piece::BlackRook),
            'Q' => Some(Piece::WhiteQueen),
            'q' => Some(Piece::BlackQueen),
            'K' => Some(Piece::WhiteKing),
            'k' => Some(Piece::BlackKing),
            _ => None,
        }
    }

    /// The letter of the piece, in lower case for black.
    #[verifier::when_used_as_spec(spec_letter)]
    pub fn letter(self) -> (r: char)
        ensures
            r == self.spec_letter(),
    {
        match self {
            Piece::Empty => ' ',
            Piece::WhitePawn => 'P',
            Piece::BlackPawn => 'p',
            Piece::WhiteKnight => 'N',
            Piece::BlackKnight => 'n',
            Piece::WhiteBishop => 'B',
            Piece::BlackBishop => 'b',
            Piece::WhiteRook => 'R',
            Piece::BlackRook => 'r',
            Piece::WhiteQueen => 'Q',
            Piece::BlackQueen => 'q',
            Piece::WhiteKing => 'K',
            Piece::BlackKing => 'k',
        }
    }

    /// The piece of the given kind and color.
    #[verifier::when_used_as_spec(spec_from_type_color)]
    pub fn from_type_color(piece_type: PieceType, color: Color) -> (r: Piece)
        ensures
            r == Self::spec_from_type_color(piece_type, color),
            r.spec_piece_type() == piece_type,
            piece_type != PieceType::Empty ==> r.spec_color() == Some(color),
            piece_type == PieceType::Empty ==> r == Piece::Empty,
    {
        match (piece_type, color) {
            (PieceType::Empty, _) => Piece::Empty,
            (PieceType::Pawn, Color::White) => Piece::WhitePawn,
            (PieceType::Pawn, Color::Black) => Piece::BlackPawn,
            (PieceType::Knight, Color::White) => Piece::WhiteKnight,
            (PieceType::Knight, Color::Black) => Piece::BlackKnight,
            (PieceType::Bishop, Color::White) => Piece::WhiteBishop,
            (PieceType::Bishop, Color::Black) => Piece::BlackBishop,
            (PieceType::Rook, Color::White) => Piece::WhiteRook,
            (PieceType::Rook, Color::Black) => Piece::BlackRook,
            (PieceType::Queen, Color::White) => Piece::WhiteQueen,
            (PieceType::Queen, Color::Black) => Piece::BlackQueen,
            (PieceType::King, Color::White) => Piece::WhiteKing,
            (PieceType::King, Color::Black) => Piece::BlackKing,
        }
    }

    /// The signed material weight: positive for white, negative for black.
    #[verifier::when_used_as_spec(spec_value)]
    pub fn value(self) -> (r: i32)
        ensures
            r == self.spec_value(),
    {
        let abs_value: i32 = self.piece_type().value() as i32;
        match self.color() {
            None => 0,
            Some(Color::White) => abs_value,
            Some(Color::Black) => -abs_value,
        }
    }

    /// The kind of the piece.
    #[verifier::when_used_as_spec(spec_piece_type)]
    pub fn piece_type(self) -> (r: PieceType)
        ensures
            r == self.spec_piece_type(),
            r.spec_disc() == self.spec_disc() / 2,
    {
        match self {
            Piece::Empty => PieceType::Empty,
            Piece::WhitePawn | Piece::BlackPawn => PieceType::Pawn,
            Piece::WhiteKnight | Piece::BlackKnight => PieceType::Knight,
            Piece::WhiteBishop | Piece::BlackBishop => PieceType::Bishop,
            Piece::WhiteRook | Piece::BlackRook => PieceType::Rook,
            Piece::WhiteQueen | Piece::BlackQueen => PieceType::Queen,
            Piece::WhiteKing | Piece::BlackKing => PieceType::King,
        }
    }

    /// The color of the piece, `None` for the empty square.
    #[verifier::when_used_as_spec(spec_color)]
    pub fn color(self) -> (r: Option<Color>)
        ensures
            r == self.spec_color(),
            r is None <==> self == Piece::Empty,
            r == Some(Color::White) ==> self.spec_disc() % 2 == 0,
            r == Some(Color::Black) ==> self.spec_disc() % 2 == 1,
    {
        match self {
            Piece::Empty => None,
            Piece::WhitePawn | Piece::WhiteKnight | Piece::WhiteBishop | Piece::WhiteRook
            | Piece::WhiteQueen | Piece::WhiteKing => Some(Color::White),
            Piece::BlackPawn | Piece::BlackKnight | Piece::BlackBishop | Piece::BlackRook
            | Piece::BlackQueen | Piece::BlackKing => Some(Color::Black),
        }
    }

    /// True of the empty square.
    #[verifier::when_used_as_spec(spec_is_empty)]
    pub fn is_empty(self) -> (r: bool)
        ensures
            r == (self == Piece::Empty),
    {
        match self {
            Piece::Empty => true,
            _ => false,
        }
    }

    /// Tells whether the piece is of the given color.
    pub fn has_color(self, color: Color) -> (r: bool)
        ensures
            r == (self.spec_color() == Some(color)),
    {
        match self.color() {
            Some(c) => c == color,
            None => false,
        }
    }

    /// The empty square.
    pub fn empty() -> (r: Piece)
        ensures
            r == Piece::Empty,
    {
        Piece::Empty
    }

    /// The compact code of the piece.
    #[verifier::when_used_as_spec(spec_disc)]
    pub fn disc(self) -> (r: u32)
        ensures
            r == self.spec_disc(),
            r <= 13,
            r != 1,
    {
        match self {
            Piece::Empty => 0,
            Piece::WhitePawn => 2,
            Piece::BlackPawn => 3,
            Piece::WhiteKnight => 4,
            Piece::BlackKnight => 5,
            Piece::WhiteBishop => 6,
            Piece::BlackBishop => 7,
            Piece::WhiteRook => 8,
            Piece::BlackRook => 9,
            Piece::WhiteQueen => 10,
            Piece::BlackQueen => 11,
            Piece::WhiteKing => 12,
            Piece::BlackKing => 13,
        }
    }

    /// Decodes a piece from its compact code. The codes 1 and above 13 stand
    /// for nothing and give `None`.
    pub fn from_disc(disc: u32) -> (r: Option<Piece>)
        ensures
            r == Self::spec_from_disc(disc),
            r is Some <==> (disc <= 13 && disc != 1),
            r is Some ==> r->Some_0.spec_disc() == disc,
    {
        if disc == 1 || disc > 13 {
            None
        } else {
            let color = if disc % 2 == 0 {
                Color::White
            } else {
                Color::Black
            };
            match PieceType::from_disc(disc / 2) {
                Some(kind) => Some(Piece::from_type_color(kind, color)),
                None => None,
            }
        }
    }

    /// A piece is rebuilt from its kind and color, from its code and from its letter.
    pub proof fn lemma_round_trips(self)
        ensures
            self.spec_color() is Some ==> Self::spec_from_type_color(
                self.spec_piece_type(),
                self.spec_color()->Some_0,
            ) == self,
            self.spec_color() is None <==> self.spec_piece_type() == PieceType::Empty,
            Self::spec_from_disc(self.spec_disc()) == Some(self),
            Self::spec_from_letter(self.spec_letter()) == Some(self),
    {
    }
}

/// What was wrong with a text that could not be read.
#[derive(Clone, Copy, Debug, PartialEq, Eq, Structural, Hash)]
pub enum ParseErrorKind {
    /// The text is not the name of a square.
    InvalidSquare,
    /// A position description does not have six fields.
    FieldCount,
    /// The first field of a position description does not place pieces on 64 squares.
    PiecePlacement,
    /// The second field of a position description is neither `w` nor `b`.
    SideToMove,
    /// The third field of a position description does not name castling rights.
    CastlingRights,
    /// The fourth field of a position description is neither `-` nor a square.
    EnPassantTarget,
    /// The fifth or the sixth field of a position description is not a counter.
    MoveCounter,
    /// The text describes a position that cannot come about in a game.
    IllegalPosition,
}

/// A failed parse: what was wrong, and the text that was refused.
#[derive(Clone, Debug, PartialEq, Eq)]
pub struct ParseError {
    pub kind: ParseErrorKind,
    pub text: String,
}

impl ParseError {
    /// The words that introduce the refused text in a message.
    pub open spec fn prefix(kind: ParseErrorKind) -> Seq<char> {
        match kind {
            ParseErrorKind::InvalidSquare => "Invalid square "@,
            ParseErrorKind::FieldCount => "Not six fields in "@,
            ParseErrorKind::PiecePlacement => "Invalid piece placement in "@,
            ParseErrorKind::SideToMove => "Invalid side to move in "@,
            ParseErrorKind::CastlingRights => "Invalid castling rights in "@,
            ParseErrorKind::EnPassantTarget => "Invalid en passant square in "@,
            ParseErrorKind::MoveCounter => "Invalid move counter in "@,
            ParseErrorKind::IllegalPosition => "Illegal position "@,
        }
    }

    /// A message for a reader: the prefix of the kind, then the refused text.
    pub fn message(&self) -> (r: String)
        ensures
            r@ == Self::prefix(self.kind) + self.text@,
    {
        let head = match self.kind {
            ParseErrorKind::InvalidSquare => "Invalid square ",
            ParseErrorKind::FieldCount => "Not six fields in ",
            ParseErrorKind::PiecePlacement => "Invalid piece placement in ",
            ParseErrorKind::SideToMove => "Invalid side to move in ",
            ParseErrorKind::CastlingRights => "Invalid castling rights in ",
            ParseErrorKind::EnPassantTarget => "Invalid en passant square in ",
            ParseErrorKind::MoveCounter => "Invalid move counter in ",
            ParseErrorKind::IllegalPosition => "Illegal position ",
        };
        String::from_str(head).concat(self.text.as_str())
    }

    /// The same failure as a `pgn::Error`: of the kind `IllegalPosition` for
    /// an illegal position, of the kind `ParseError` for every other
    /// failure, and with the message as its payload.
    pub(crate) fn to_pgn_error(&self) -> (e: pgn::Error)
        ensures
            e == Self::pgn_error_of(self.kind, self.text@),
    {
        let kind = match self.kind {
            ParseErrorKind::IllegalPosition => pgn::ErrorKind::IllegalPosition,
            _ => pgn::ErrorKind::ParseError,
        };
        new_pgn_error(kind, self.message())
    }

    /// The kind of `pgn::Error` that reports a failure of the given kind.
    pub open spec fn pgn_kind(kind: ParseErrorKind) -> pgn::ErrorKind {
        match kind {
            ParseErrorKind::IllegalPosition => pgn::ErrorKind::IllegalPosition,
            _ => pgn::ErrorKind::ParseError,
        }
    }

    /// The `pgn::Error` that reports a failure of the given kind on the
    /// given text: what `pgn::Error::new` makes of the kind for that failure
    /// and of the message for it.
    pub open spec fn pgn_error_of(kind: ParseErrorKind, text: Seq<char>) -> pgn::Error {
        pgn_error_made(Self::pgn_kind(kind), Self::prefix(kind) + text)
    }
}

/// `pgn_traits::pgn::Error`, carried through as an opaque value.
#[verifier::external_type_specification]
#[verifier::external_body]
pub struct ExPgnError(pgn::Error);

/// `pgn_traits::pgn::ErrorKind`, an enum whose variants carry no data, made
/// known with its variants.
#[verifier::external_type_specification]
pub struct ExPgnErrorKind(pgn::ErrorKind);

/// The error that `pgn::Error::new` makes of a kind and a message. The
/// error holds the kind, the message as its payload and no source, so it is
/// the same for the same kind and message.
pub uninterp spec fn pgn_error_made(kind: pgn::ErrorKind, message: Seq<char>) -> pgn::Error;

/// Calls `pgn::Error::new`, which makes an error of the given kind around
/// the message. The result is known by its name only.
#[verifier::external_body]
fn new_pgn_error(kind: pgn::ErrorKind, message: String) -> (e: pgn::Error)
    ensures
        e == pgn_error_made(kind, message@),
{
    pgn::Error::new(kind, message)
}

/// Calls `String::push`, which appends one character to the end of the string.
#[verifier::external_body]
fn push_char(s: &mut String, c: char)
    ensures
        final(s)@ == old(s)@.push(c),
{
    s.push(c)
}

/// The file of the square with the given index: 0 for file a up to 7 for file h.
pub open spec fn file_of(i: int) -> int {
    i % 8
}

/// The rank of the square with the given index: 0 for the eighth rank down
/// to 7 for the first.
pub open spec fn rank_of(i: int) -> int {
    i / 8
}

/// True of the indices of the 64 squares.
pub open spec fn on_board(i: int) -> bool {
    0 <= i < 64
}

/// The index of h1, where the white king-side rook starts.
pub const H1: u8 = 63;

/// The index of g1.
pub const G1: u8 = 62;

/// The index of f1.
pub const F1: u8 = 61;

/// The index of e1, where the white king starts.
pub const E1: u8 = 60;

/// The index of d1.
pub const D1: u8 = 59;

/// The index of c1.
pub const C1: u8 = 58;

/// The index of b1.
pub const B1: u8 = 57;

/// The index of a1, where the white queen-side rook starts.
pub const A1: u8 = 56;

/// The index of h8, where the black king-side rook starts.
pub const H8: u8 = 7;

/// The index of g8.
pub const G8: u8 = 6;

/// The index of f8.
pub const F8: u8 = 5;

/// The index of e8, where the black king starts.
pub const E8: u8 = 4;

/// The index of d8.
pub const D8: u8 = 3;

/// The index of c8.
pub const C8: u8 = 2;

/// The index of b8.
pub const B8: u8 = 1;

/// The index of a8, where the black queen-side rook starts.
pub const A8: u8 = 0;

/// A square of the board, by its index from 0 (a8) to 63 (h1).
#[derive(Clone, Copy, Debug, PartialEq, Eq, Structural, Hash, PartialOrd, Ord)]
pub struct Square(pub u8);

impl Square {
    /// The index is one of the 64.
    pub open spec fn wf(self) -> bool {
        self.0 < 64
    }

    /// The index as a mathematical integer.
    pub open spec fn idx(self) -> int {
        self.0 as int
    }

    /// The file of the square, 0 for file a.
    pub open spec fn spec_file(self) -> u8 {
        (self.0 % 8) as u8
    }

    /// The rank of the square, 0 for the eighth rank.
    pub open spec fn spec_rank(self) -> u8 {
        (self.0 / 8) as u8
    }

    /// The two characters that name a square: the file letter, then the rank
    /// digit, which counts from the first rank at the bottom.
    pub open spec fn spec_alg(self) -> Seq<char> {
        seq![((self.0 % 8) as u8 + 97) as u8 as char, (56 - (self.0 / 8) as u8) as u8 as char]
    }

    /// True of the texts that name a square: a letter from a to h, then a
    /// digit from 1 to 8, and nothing else.
    pub open spec fn valid_alg(text: Seq<char>) -> bool {
        &&& text.len() == 2
        &&& 'a' <= text[0] <= 'h'
        &&& '1' <= text[1] <= '8'
    }

    /// The square that a valid text names.
    pub open spec fn spec_from_alg(text: Seq<char>) -> Square {
        Square(((56 - text[1] as int) * 8 + (text[0] as int - 97)) as u8)
    }

    /// The square on the given file and rank.
    pub fn from_ints(file: u8, rank: u8) -> (r: Square)
        requires
            file < 8,
            rank < 8,
        ensures
            r.0 == rank * 8 + file,
            r.wf(),
            r.spec_file() == file,
            r.spec_rank() == rank,
    {
        Square(rank * 8 + file)
    }

    /// The file and the rank of the square.
    pub fn file_rank(self) -> (r: (u8, u8))
        ensures
            r.0 == self.spec_file(),
            r.1 == self.spec_rank(),
            r.1 * 8 + r.0 == self.0,
    {
        (self.file(), self.rank())
    }

    /// The file of the square, 0 for file a.
    #[verifier::when_used_as_spec(spec_file)]
    pub fn file(self) -> (r: u8)
        ensures
            r == self.spec_file(),
            r == self.0 % 8,
            r < 8,
    {
        self.0 % 8
    }

    /// The rank of the square, 0 for the eighth rank.
    #[verifier::when_used_as_spec(spec_rank)]
    pub fn rank(self) -> (r: u8)
        ensures
            r == self.spec_rank(),
            r == self.0 / 8,
            self.wf() ==> r < 8,
    {
        self.0 / 8
    }

    /// The name of the square in algebraic notation, such as `e4`.
    pub fn to_alg(self) -> (r: String)
        requires
            self.wf(),
        ensures
            r@ == self.spec_alg(),
            Self::valid_alg(r@),
            Self::spec_from_alg(r@) == self,
    {
        let file_char: char = (self.file() + 97) as char;
        let rank_char: char = (56 - self.rank()) as char;
        let mut s = String::new();
        push_char(&mut s, file_char);
        push_char(&mut s, rank_char);
        proof {
            assert(s@ =~= self.spec_alg());
        }
        s
    }

    /// Reads a square from algebraic notation. The text must be a file letter
    /// from a to h followed by a rank digit from 1 to 8; any other text is
    /// refused, and the error carries it.
    pub fn parse(alg: &str) -> (r: Result<Square, ParseError>)
        ensures
            r is Ok <==> Self::valid_alg(alg@),
            r is Ok ==> r->Ok_0 == Self::spec_from_alg(alg@) && r->Ok_0.wf() && r->Ok_0.spec_alg()
                == alg@,
            r is Err ==> r->Err_0.kind == ParseErrorKind::InvalidSquare && r->Err_0.text@
                == alg@,
    {
        if alg.unicode_len() != 2 {
            return Err(ParseError { kind: ParseErrorKind::InvalidSquare, text: alg.to_owned() });
        }
        let file: char = alg.get_char(0);
        let rank: char = alg.get_char(1);
        if file < 'a' || file > 'h' || rank < '1' || rank > '8' {
            Err(ParseError { kind: ParseErrorKind::InvalidSquare, text: alg.to_owned() })
        } else {
            let file_u8: u8 = file as u8 - 97;
            let rank_u8: u8 = 8 - (rank as u8 - 48);
            let square = Square(rank_u8 * 8 + file_u8);
            proof {
                assert(square.spec_alg() =~= alg@);
            }
            Ok(square)
        }
    }

    /// Reads a square from algebraic notation, as `parse` does, and reports a
    /// refused text as a `pgn::Error`.
    pub fn from_alg(alg: &str) -> (r: Result<Square, pgn::Error>)
        ensures
            r is Ok <==> Self::valid_alg(alg@),
            r is Ok ==> r->Ok_0 == Self::spec_from_alg(alg@) && r->Ok_0.wf() && r->Ok_0.spec_alg()
                == alg@,
            r is Err ==> r->Err_0 == ParseError::pgn_error_of(
                ParseErrorKind::InvalidSquare,
                alg@,
            ),
    {
        match Self::parse(alg) {
            Ok(square) => Ok(square),
            Err(e) => Err(e.to_pgn_error()),
        }
    }

    /// Writing a square and reading the text back gives the square again.
    pub proof fn lemma_alg_round_trip(self)
        requires
            self.wf(),
        ensures
            Self::valid_alg(self.spec_alg()),
            Self::spec_from_alg(self.spec_alg()) == self,
    {
    }

    /// Reading a valid text and writing the square gives the text again.
    pub proof fn lemma_alg_text_round_trip(text: Seq<char>)
        requires
            Self::valid_alg(text),
        ensures
            Self::spec_from_alg(text).wf(),
            Self::spec_from_alg(text).spec_alg() == text,
    {
        assert(Self::spec_from_alg(text).spec_alg() =~= text);
    }
}

} // verus!
