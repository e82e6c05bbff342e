//! Moves, castling rights, and the record that takes a move back.

use crate::types::{Color, Piece, PieceType, Square};
use vstd::prelude::*;

verus! {

/// What kind of move a move is, beyond its two squares.
#[derive(Clone, Copy, Debug, PartialEq, Eq, Structural, Hash)]
pub enum MoveTag {
    /// A move or capture with no side effect on other squares.
    Normal,
    /// A pawn's advance of two ranks from its starting rank.
    DoublePawnPush,
    /// A pawn's capture of the pawn that has just passed it.
    EnPassantCapture,
    /// The king goes two files towards the h-file rook, which jumps over it.
    CastleKingSide,
    /// The king goes two files towards the a-file rook, which jumps over it.
    CastleQueenSide,
}

/// A proposed move: where from, where to, what a pawn becomes on the last
/// rank, and the kind of move.
#[derive(Clone, Copy, Debug, PartialEq, Eq, Hash)]
pub struct ChessMove {
    pub from: Square,
    pub to: Square,
    pub promotion: Option<PieceType>,
    pub tag: MoveTag,
}

impl ChessMove {
    /// Both squares are on the board.
    pub open spec fn wf(self) -> bool {
        self.from.wf() && self.to.wf()
    }

    /// A plain move or capture.
    pub open spec fn spec_new(from: Square, to: Square) -> ChessMove {
        ChessMove { from, to, promotion: None, tag: MoveTag::Normal }
    }

    /// A move of the given kind without promotion.
    pub open spec fn spec_new_tagged(from: Square, to: Square, tag: MoveTag) -> ChessMove {
        ChessMove { from, to, promotion: None, tag }
    }

    /// A pawn's move to the last rank with the piece that it becomes.
    pub open spec fn spec_new_promotion(from: Square, to: Square, kind: PieceType) -> ChessMove {
        ChessMove { from, to, promotion: Some(kind), tag: MoveTag::Normal }
    }

    /// A plain move or capture.
    #[verifier::when_used_as_spec(spec_new)]
    pub fn new(from: Square, to: Square) -> (m: ChessMove)
        ensures
            m == (ChessMove { from, to, promotion: None, tag: MoveTag::Normal }),
    {
        ChessMove { from, to, promotion: None, tag: MoveTag::Normal }
    }

    /// Tells whether two moves are the same in every field.
    pub fn same(self, other: ChessMove) -> (r: bool)
        ensures
            r == (self == other),
    {
        let promotion = match (self.promotion, other.promotion) {
            (None, None) => true,
            (Some(a), Some(b)) => a == b,
            _ => false,
        };
        self.from.0 == other.from.0 && self.to.0 == other.to.0 && self.tag == other.tag
            && promotion
    }

    /// A pawn's move to the last rank, where it becomes a piece of the given kind.
    #[verifier::when_used_as_spec(spec_new_promotion)]
    pub fn new_promotion(from: Square, to: Square, kind: PieceType) -> (m: ChessMove)
        ensures
            m == (ChessMove { from, to, promotion: Some(kind), tag: MoveTag::Normal }),
    {
        ChessMove { from, to, promotion: Some(kind), tag: MoveTag::Normal }
    }

    /// A move of the given kind without promotion.
    #[verifier::when_used_as_spec(spec_new_tagged)]
    pub fn new_tagged(from: Square, to: Square, tag: MoveTag) -> (m: ChessMove)
        ensures
            m == (ChessMove { from, to, promotion: None, tag }),
    {
        ChessMove { from, to, promotion: None, tag }
    }
}

/// Which of the four castling moves have not yet been lost for good.
#[derive(Clone, Copy, Debug, PartialEq, Eq, Structural, Hash)]
pub struct CastlingRights {
    pub white_king_side: bool,
    pub white_queen_side: bool,
    pub black_king_side: bool,
    pub black_queen_side: bool,
}

impl CastlingRights {
    /// Whether the side may still castle towards the h-file.
    pub open spec fn spec_king_side(self, color: Color) -> bool {
        match color {
            Color::White => self.white_king_side,
            Color::Black => self.black_king_side,
        }
    }

    /// Whether the side may still castle towards the a-file.
    pub open spec fn spec_queen_side(self, color: Color) -> bool {
        match color {
            Color::White => self.white_queen_side,
            Color::Black => self.black_queen_side,
        }
    }

    /// Whether the side may still castle towards the h-file.
    #[verifier::when_used_as_spec(spec_king_side)]
    pub fn king_side(self, color: Color) -> (r: bool)
        ensures
            r == self.spec_king_side(color),
    {
        match color {
            Color::White => self.white_king_side,
            Color::Black => self.black_king_side,
        }
    }

    /// Whether the side may still castle towards the a-file.
    #[verifier::when_used_as_spec(spec_queen_side)]
    pub fn queen_side(self, color: Color) -> (r: bool)
        ensures
            r == self.spec_queen_side(color),
    {
        match color {
            Color::White => self.white_queen_side,
            Color::Black => self.black_queen_side,
        }
    }

    /// All four rights.
    pub fn all() -> (r: CastlingRights)
        ensures
            r == (CastlingRights {
                white_king_side: true,
                white_queen_side: true,
                black_king_side: true,
                black_queen_side: true,
            }),
    {
        CastlingRights {
            white_king_side: true,
            white_queen_side: true,
            black_king_side: true,
            black_queen_side: true,
        }
    }

    /// None of the rights.
    pub fn none() -> (r: CastlingRights)
        ensures
            r == (CastlingRights {
                white_king_side: false,
                white_queen_side: false,
                black_king_side: false,
                black_queen_side: false,
            }),
    {
        CastlingRights {
            white_king_side: false,
            white_queen_side: false,
            black_king_side: false,
            black_queen_side: false,
        }
    }
}

/// What a move destroyed, kept so that the move can be taken back: the two
/// squares and the kind of the move, whether a pawn was promoted, the piece
/// that was captured and where it stood, and the rights, en-passant target and
/// counters of the position before the move.
#[derive(Clone, Copy, Debug, PartialEq, Eq, Hash)]
pub struct ChessReverseMove {
    pub from: Square,
    pub to: Square,
    pub tag: MoveTag,
    pub promoted: bool,
    pub captured: Piece,
    pub capture_square: Square,
    pub castling: CastlingRights,
    pub en_passant: Option<Square>,
    pub half_move_clock: u32,
    pub full_move: u32,
}

impl ChessReverseMove {
    /// The three squares are on the board.
    pub open spec fn wf(self) -> bool {
        self.from.wf() && self.to.wf() && self.capture_square.wf()
    }
}

} // verus!
