//! The position: where the pieces stand, whose turn it is, and what is left
//! of the castling and en-passant rights. Moves are played on it and taken
//! back from it.

use crate::chess_move::{CastlingRights, ChessMove, ChessReverseMove, MoveTag};
use crate::geometry::{
    attacked, between, between_points, bishop_line, dist, forward, lemma_coordinates,
    lemma_ray_order, lemma_ray_start, lemma_ray_step, lemma_square_of, on_ray, path_clear,
    piece_attacks, rook_line, sign,
};
use crate::laws::{lemma_apply_wf, lemma_round_trip};
use crate::types::{file_of, on_board, rank_of, Color, Piece, PieceType, Square};
use crate::types::{A1, A8, E1, E8, H1, H8};
use vstd::prelude::*;

verus! {

/// The king of a color.
pub open spec fn king_of(color: Color) -> Piece {
    match color {
        Color::White => Piece::WhiteKing,
        Color::Black => Piece::BlackKing,
    }
}

/// The king of the color stands on the square `k`.
pub open spec fn is_king_square(cells: Seq<Piece>, color: Color, k: int) -> bool {
    on_board(k) && cells[k] == king_of(color)
}

/// The color has a king on the board.
pub open spec fn has_king(cells: Seq<Piece>, color: Color) -> bool {
    exists|k: int| #[trigger] is_king_square(cells, color, k)
}

/// The color has exactly one king on the board.
pub open spec fn one_king(cells: Seq<Piece>, color: Color) -> bool {
    &&& has_king(cells, color)
    &&& forall|i: int, j: int|
        #[trigger] is_king_square(cells, color, i) && #[trigger] is_king_square(cells, color, j)
            ==> i == j
}

/// A square on which the king of the color stands.
pub open spec fn king_sq(cells: Seq<Piece>, color: Color) -> int {
    choose|k: int| #[trigger] is_king_square(cells, color, k)
}

/// The rank on which a color's pieces start: 7 for white, 0 for black.
pub open spec fn home_rank(color: Color) -> int {
    match color {
        Color::White => 7,
        Color::Black => 0,
    }
}

/// The square on which a color's king starts.
pub open spec fn king_home(color: Color) -> int {
    home_rank(color) * 8 + 4
}

/// The sum of a counter and one, held at the largest value of the type.
pub open spec fn bump(x: u32) -> u32 {
    if x < u32::MAX {
        (x + 1) as u32
    } else {
        x
    }
}

/// A position as a mathematical value: the 64 cells in the order of the
/// square indices, and the rest of the state as it is.
pub struct Position {
    pub cells: Seq<Piece>,
    pub to_move: Color,
    pub castling: CastlingRights,
    pub en_passant: Option<Square>,
    pub half_move_clock: u32,
    pub full_move: u32,
}

impl Position {
    /// The square from which the captured piece is taken: the destination,
    /// but for an en-passant capture the square on the destination's
    /// file and the source's rank.
    pub open spec fn capture_square(self, m: ChessMove) -> int {
        if m.tag == MoveTag::EnPassantCapture {
            rank_of(m.from.idx()) * 8 + file_of(m.to.idx())
        } else {
            m.to.idx()
        }
    }

    /// The piece that lands on the destination: the promotion piece, or else
    /// the piece that moves.
    pub open spec fn placed_piece(self, m: ChessMove) -> Piece {
        match m.promotion {
            Some(kind) => Piece::spec_from_type_color(kind, self.to_move),
            None => self.cells[m.from.idx()],
        }
    }

    /// The cells after the move: the source is vacated, the captured piece is
    /// removed, the moving or promoted piece is placed, and in castling the
    /// rook goes to the other side of the king.
    pub open spec fn cells_after(self, m: ChessMove) -> Seq<Piece> {
        let base = self.cells.update(m.from.idx(), Piece::Empty).update(
            self.capture_square(m),
            Piece::Empty,
        ).update(m.to.idx(), self.placed_piece(m));
        if m.tag == MoveTag::CastleKingSide || m.tag == MoveTag::CastleQueenSide {
            base.update(rook_source(m.from.idx(), m.tag), Piece::Empty).update(
                rook_target(m.from.idx(), m.tag),
                self.cells[rook_source(m.from.idx(), m.tag)],
            )
        } else {
            base
        }
    }

    /// The castling rights after the move. A right is lost as soon as a move
    /// starts from or ends on the home square of its king or of its rook:
    /// that covers every king move, every move of the rook from its home
    /// square, and every capture on that square.
    pub open spec fn castling_after(self, m: ChessMove) -> CastlingRights {
        let f = m.from.0;
        let t = m.to.0;
        CastlingRights {
            white_king_side: self.castling.white_king_side && f != E1 && t != E1 && f != H1 && t
                != H1,
            white_queen_side: self.castling.white_queen_side && f != E1 && t != E1 && f != A1 && t
                != A1,
            black_king_side: self.castling.black_king_side && f != E8 && t != E8 && f != H8 && t
                != H8,
            black_queen_side: self.castling.black_queen_side && f != E8 && t != E8 && f != A8 && t
                != A8,
        }
    }

    /// The en-passant target after the move: the square that a double pawn
    /// push passed over, and none after any other move.
    pub open spec fn en_passant_after(self, m: ChessMove) -> Option<Square> {
        if m.tag == MoveTag::DoublePawnPush {
            Some(Square(((m.from.0 + m.to.0) / 2) as u8))
        } else {
            None
        }
    }

    /// The half-move clock after the move: zero after a pawn move or a
    /// capture, else one more than before.
    pub open spec fn clock_after(self, m: ChessMove) -> u32 {
        if self.cells[m.from.idx()].spec_piece_type() == PieceType::Pawn
            || self.cells[self.capture_square(m)] != Piece::Empty {
            0
        } else {
            bump(self.half_move_clock)
        }
    }

    /// The position after the move.
    pub open spec fn apply(self, m: ChessMove) -> Position {
        Position {
            cells: self.cells_after(m),
            to_move: self.to_move.other(),
            castling: self.castling_after(m),
            en_passant: self.en_passant_after(m),
            half_move_clock: self.clock_after(m),
            full_move: if self.to_move == Color::Black {
                bump(self.full_move)
            } else {
                self.full_move
            },
        }
    }

    /// The record that takes the move back.
    pub open spec fn reverse_of(self, m: ChessMove) -> ChessReverseMove {
        ChessReverseMove {
            from: m.from,
            to: m.to,
            tag: m.tag,
            promoted: m.promotion is Some,
            captured: self.cells[self.capture_square(m)],
            capture_square: Square(self.capture_square(m) as u8),
            castling: self.castling,
            en_passant: self.en_passant,
            half_move_clock: self.half_move_clock,
            full_move: self.full_move,
        }
    }

    /// The position before the move that the record was made for: the rook of
    /// a castling move goes home, the moved piece goes back to its source
    /// (as a pawn, if it was promoted), the captured piece comes back, and
    /// rights, target and counters are those of the record.
    pub open spec fn unapply(self, rev: ChessReverseMove) -> Position {
        let mover = self.to_move.other();
        let moved = if rev.promoted {
            Piece::spec_from_type_color(PieceType::Pawn, mover)
        } else {
            self.cells[rev.to.idx()]
        };
        let base = if rev.tag == MoveTag::CastleKingSide || rev.tag == MoveTag::CastleQueenSide {
            self.cells.update(rook_target(rev.from.idx(), rev.tag), Piece::Empty).update(
                rook_source(rev.from.idx(), rev.tag),
                self.cells[rook_target(rev.from.idx(), rev.tag)],
            )
        } else {
            self.cells
        };
        Position {
            cells: base.update(rev.to.idx(), Piece::Empty).update(
                rev.capture_square.idx(),
                rev.captured,
            ).update(rev.from.idx(), moved),
            to_move: mover,
            castling: rev.castling,
            en_passant: rev.en_passant,
            half_move_clock: rev.half_move_clock,
            full_move: rev.full_move,
        }
    }

    /// A castling right that is still held means that the king and the rook
    /// stand on their home squares.
    pub open spec fn castling_consistent(self) -> bool {
        &&& self.castling.white_king_side ==> self.cells[E1 as int] == Piece::WhiteKing
            && self.cells[H1 as int] == Piece::WhiteRook
        &&& self.castling.white_queen_side ==> self.cells[E1 as int] == Piece::WhiteKing
            && self.cells[A1 as int] == Piece::WhiteRook
        &&& self.castling.black_king_side ==> self.cells[E8 as int] == Piece::BlackKing
            && self.cells[H8 as int] == Piece::BlackRook
        &&& self.castling.black_queen_side ==> self.cells[E8 as int] == Piece::BlackKing
            && self.cells[A8 as int] == Piece::BlackRook
    }

    /// An en-passant target is the empty square that the other side's pawn has
    /// just passed over: that pawn stands one rank beyond it, seen from the
    /// side to move.
    pub open spec fn en_passant_consistent(self) -> bool {
        match self.en_passant {
            None => true,
            Some(t) => {
                &&& t.wf()
                &&& self.cells[t.idx()] == Piece::Empty
                &&& rank_of(t.idx()) == home_rank(self.to_move.other()) - 2 * forward(
                    self.to_move,
                )
                &&& self.cells[t.idx() - 8 * forward(self.to_move)]
                    == Piece::spec_from_type_color(PieceType::Pawn, self.to_move.other())
            },
        }
    }

    /// The invariant of a position of a game: 64 cells, one king of each
    /// color, rights and target that agree with the cells, and the side that
    /// has just moved is not in check.
    pub open spec fn wf(self) -> bool {
        &&& self.cells.len() == 64
        &&& one_king(self.cells, Color::White)
        &&& one_king(self.cells, Color::Black)
        &&& self.castling_consistent()
        &&& self.en_passant_consistent()
        &&& !attacked(self.cells, king_sq(self.cells, self.to_move.other()), self.to_move)
    }

    /// The side to move is in check.
    pub open spec fn in_check(self) -> bool {
        attacked(self.cells, king_sq(self.cells, self.to_move), self.to_move.other())
    }
}

/// What keeps a position from being a position of a game.
#[derive(Clone, Copy, Debug, PartialEq, Eq, Structural, Hash)]
pub enum PositionError {
    /// A side has no king, or more than one.
    Kings,
    /// A castling right is held though king or rook has left its home square.
    Castling,
    /// The en-passant target is not the square that a pawn has just passed over.
    EnPassant,
    /// The side to move could capture the other side's king.
    KingCapturable,
}

impl Position {
    /// The first thing that is wrong with the position, if anything is:
    /// the kings are looked at first, then the castling rights, then the
    /// en-passant target, then the safety of the king of the side that has
    /// just moved.
    pub open spec fn fault(self) -> Option<PositionError> {
        if !(one_king(self.cells, Color::White) && one_king(self.cells, Color::Black)) {
            Some(PositionError::Kings)
        } else if !self.castling_consistent() {
            Some(PositionError::Castling)
        } else if !self.en_passant_consistent() {
            Some(PositionError::EnPassant)
        } else if attacked(self.cells, king_sq(self.cells, self.to_move.other()), self.to_move) {
            Some(PositionError::KingCapturable)
        } else {
            None
        }
    }
}

/// The square from which the rook leaves in a castling move whose king
/// starts on `from`: the corner of the king's rank on the side of the move.
pub open spec fn rook_source(from: int, tag: MoveTag) -> int {
    if tag == MoveTag::CastleKingSide {
        rank_of(from) * 8 + 7
    } else {
        rank_of(from) * 8
    }
}

/// The square on which the rook lands in a castling move whose king starts
/// on `from`: file f on the king side, file d on the queen side.
pub open spec fn rook_target(from: int, tag: MoveTag) -> int {
    if tag == MoveTag::CastleKingSide {
        rank_of(from) * 8 + 5
    } else {
        rank_of(from) * 8 + 3
    }
}

/// A chess position that moves can be played on and taken back from.
#[derive(Clone, Copy, Debug, PartialEq, Eq, Hash)]
pub struct ChessBoard {
    pub squares: [Piece; 64],
    pub to_move: Color,
    pub castling: CastlingRights,
    pub en_passant: Option<Square>,
    pub half_move_clock: u32,
    pub full_move: u32,
}

impl View for ChessBoard {
    type V = Position;

    /// The position as a mathematical value, with every field of the board.
    open spec fn view(&self) -> Position {
        Position {
            cells: self.squares@,
            to_move: self.to_move,
            castling: self.castling,
            en_passant: self.en_passant,
            half_move_clock: self.half_move_clock,
            full_move: self.full_move,
        }
    }
}

/// The piece that starts on a square.
pub open spec fn initial_piece(i: int) -> Piece {
    let f = file_of(i);
    if rank_of(i) == 1 {
        Piece::BlackPawn
    } else if rank_of(i) == 6 {
        Piece::WhitePawn
    } else if rank_of(i) == 0 || rank_of(i) == 7 {
        let kind = if f == 0 || f == 7 {
            PieceType::Rook
        } else if f == 1 || f == 6 {
            PieceType::Knight
        } else if f == 2 || f == 5 {
            PieceType::Bishop
        } else if f == 3 {
            PieceType::Queen
        } else {
            PieceType::King
        };
        Piece::spec_from_type_color(
            kind,
            if rank_of(i) == 0 {
                Color::Black
            } else {
                Color::White
            },
        )
    } else {
        Piece::Empty
    }
}

/// The position from which a game starts.
pub open spec fn initial_position() -> Position {
    Position {
        cells: Seq::new(64, |i: int| initial_piece(i)),
        to_move: Color::White,
        castling: CastlingRights {
            white_king_side: true,
            white_queen_side: true,
            black_king_side: true,
            black_queen_side: true,
        },
        en_passant: None,
        half_move_clock: 0,
        full_move: 1,
    }
}

/// Where there is exactly one king, it stands on the chosen king square.
pub proof fn lemma_king_sq(cells: Seq<Piece>, color: Color, k: int)
    requires
        one_king(cells, color),
        is_king_square(cells, color, k),
    ensures
        king_sq(cells, color) == k,
        is_king_square(cells, color, king_sq(cells, color)),
{
}

/// The starting position meets the invariant of a position.
pub proof fn lemma_initial_wf()
    ensures
        initial_position().wf(),
{
    let p = initial_position();
    assert(is_king_square(p.cells, Color::White, 60));
    assert(is_king_square(p.cells, Color::Black, 4));
    lemma_king_sq(p.cells, Color::Black, 4);
    assert forall|a: int|
        on_board(a) && p.cells[a].spec_color() == Some(Color::White) implies !#[trigger] piece_attacks(
        p.cells,
        a,
        4,
    ) by {
        lemma_coordinates(a);
    }
}

/// The sign of a small number.
fn signum(x: i8) -> (s: i8)
    ensures
        s == sign(x as int),
{
    if x < 0 {
        -1
    } else if x == 0 {
        0
    } else {
        1
    }
}

/// The piece that starts on the square with the given index.
fn starting_piece(i: u8) -> (p: Piece)
    requires
        i < 64,
    ensures
        p == initial_piece(i as int),
{
    let f = i % 8;
    let r = i / 8;
    if r == 1 {
        Piece::BlackPawn
    } else if r == 6 {
        Piece::WhitePawn
    } else if r == 0 || r == 7 {
        let kind = if f == 0 || f == 7 {
            PieceType::Rook
        } else if f == 1 || f == 6 {
            PieceType::Knight
        } else if f == 2 || f == 5 {
            PieceType::Bishop
        } else if f == 3 {
            PieceType::Queen
        } else {
            PieceType::King
        };
        Piece::from_type_color(
            kind,
            if r == 0 {
                Color::Black
            } else {
                Color::White
            },
        )
    } else {
        Piece::Empty
    }
}

impl ChessBoard {
    /// The position from which a game starts: white to move, all castling
    /// rights, no en-passant target.
    pub fn start_board() -> (b: ChessBoard)
        ensures
            b@ == initial_position(),
            b@.wf(),
    {
        let mut squares = [Piece::Empty;64];
        let mut i: u8 = 0;
        while i < 64
            invariant
                i <= 64,
                forall|j: int| 0 <= j < i ==> #[trigger] squares@[j] == initial_piece(j),
            decreases 64 - i,
        {
            squares[i as usize] = starting_piece(i);
            i += 1;
        }
        let b = ChessBoard {
            squares,
            to_move: Color::White,
            castling: CastlingRights::all(),
            en_passant: None,
            half_move_clock: 0,
            full_move: 1,
        };
        proof {
            assert(b@.cells =~= initial_position().cells);
            lemma_initial_wf();
        }
        b
    }

    /// The piece on a square.
    pub fn piece_at(&self, sq: Square) -> (p: Piece)
        requires
            sq.wf(),
        ensures
            p == self@.cells[sq.idx()],
    {
        self.squares[sq.0 as usize]
    }

    /// The side whose turn it is.
    pub fn side_to_move(&self) -> (c: Color)
        ensures
            c == self@.to_move,
    {
        self.to_move
    }

    /// Tells whether all squares strictly between two squares of one line
    /// are empty.
    pub fn is_path_clear(&self, a: Square, b: Square) -> (clear: bool)
        requires
            a.wf(),
            b.wf(),
            rook_line(a.idx(), b.idx()) || bishop_line(a.idx(), b.idx()),
        ensures
            clear == path_clear(self@.cells, a.idx(), b.idx()),
    {
        let fa: i8 = (a.0 % 8) as i8;
        let ra: i8 = (a.0 / 8) as i8;
        let fb: i8 = (b.0 % 8) as i8;
        let rb: i8 = (b.0 / 8) as i8;
        let sf = signum(fb - fa);
        let sr = signum(rb - ra);
        let mut f: i8 = fa + sf;
        let mut r: i8 = ra + sr;
        proof {
            lemma_coordinates(a.idx());
            lemma_coordinates(b.idx());
            lemma_ray_order(
                fa as int,
                ra as int,
                sf as int,
                sr as int,
                f as int,
                r as int,
                fb as int,
                rb as int,
            );
            assert forall|x: int| on_board(x) && between(a.idx(), r * 8 + f, x) implies #[trigger] self@.cells[x]
                == Piece::Empty by {
                lemma_square_of(f as int, r as int);
                lemma_ray_start(
                    fa as int,
                    ra as int,
                    sf as int,
                    sr as int,
                    file_of(x),
                    rank_of(x),
                );
            }
        }
        while f != fb || r != rb
            invariant
                a.wf(),
                b.wf(),
                fa == file_of(a.idx()),
                ra == rank_of(a.idx()),
                fb == file_of(b.idx()),
                rb == rank_of(b.idx()),
                on_ray(fa as int, ra as int, sf as int, sr as int, fb as int, rb as int),
                on_ray(fa as int, ra as int, sf as int, sr as int, f as int, r as int),
                (f == fb && r == rb) || between_points(
                    fa as int,
                    ra as int,
                    fb as int,
                    rb as int,
                    f as int,
                    r as int,
                ),
                0 <= f < 8,
                0 <= r < 8,
                path_clear(self@.cells, a.idx(), r * 8 + f),
            decreases dist(fb - f) + dist(rb - r),
        {
            let cur = (r * 8 + f) as usize;
            proof {
                lemma_square_of(f as int, r as int);
            }
            if !self.squares[cur].is_empty() {
                proof {
                    assert(between(a.idx(), b.idx(), cur as int));
                }
                return false;
            }
            proof {
                lemma_ray_order(
                    fa as int,
                    ra as int,
                    sf as int,
                    sr as int,
                    f as int,
                    r as int,
                    fb as int,
                    rb as int,
                );
                lemma_square_of(f + sf, r + sr);
                assert forall|x: int|
                    on_board(x) && between(a.idx(), (r + sr) * 8 + (f + sf), x) implies #[trigger] self@.cells[x]
                    == Piece::Empty by {
                    lemma_coordinates(x);
                    lemma_ray_step(
                        fa as int,
                        ra as int,
                        sf as int,
                        sr as int,
                        f as int,
                        r as int,
                        file_of(x),
                        rank_of(x),
                    );
                    if file_of(x) == f && rank_of(x) == r {
                        assert(x == cur);
                    } else {
                        assert(between(a.idx(), r * 8 + f, x));
                    }
                }
            }
            f = f + sf;
            r = r + sr;
        }
        proof {
            assert(r * 8 + f == b.idx());
        }
        true
    }

    /// Tells whether the piece on `a`, if there is one, attacks the square `b`.
    pub fn attacks(&self, a: Square, b: Square) -> (r: bool)
        requires
            a.wf(),
            b.wf(),
        ensures
            r == piece_attacks(self@.cells, a.idx(), b.idx()),
    {
        let p = self.squares[a.0 as usize];
        let df: i8 = (b.0 % 8) as i8 - (a.0 % 8) as i8;
        let dr: i8 = (b.0 / 8) as i8 - (a.0 / 8) as i8;
        let adf: i8 = if df < 0 { -df } else { df };
        let adr: i8 = if dr < 0 { -dr } else { dr };
        proof {
            lemma_coordinates(a.idx());
            lemma_coordinates(b.idx());
        }
        let straight = (df == 0) != (dr == 0);
        let diagonal = adf == adr && adf != 0;
        match p {
            Piece::Empty => false,
            Piece::WhitePawn => adf == 1 && dr == -1,
            Piece::BlackPawn => adf == 1 && dr == 1,
            Piece::WhiteKnight | Piece::BlackKnight => (adf == 1 && adr == 2) || (adf == 2 && adr
                == 1),
            Piece::WhiteBishop | Piece::BlackBishop => diagonal && self.is_path_clear(a, b),
            Piece::WhiteRook | Piece::BlackRook => straight && self.is_path_clear(a, b),
            Piece::WhiteQueen | Piece::BlackQueen => (straight || diagonal) && self.is_path_clear(
                a,
                b,
            ),
            Piece::WhiteKing | Piece::BlackKing => adf <= 1 && adr <= 1 && (adf != 0 || adr != 0),
        }
    }

    /// Tells whether some piece of the color `by` attacks the square.
    pub fn is_square_attacked(&self, sq: Square, by: Color) -> (r: bool)
        requires
            sq.wf(),
        ensures
            r == attacked(self@.cells, sq.idx(), by),
    {
        let mut i: u8 = 0;
        while i < 64
            invariant
                i <= 64,
                sq.wf(),
                forall|a: int|
                    0 <= a < i && self@.cells[a].spec_color() == Some(by) ==> !#[trigger] piece_attacks(
                        self@.cells,
                        a,
                        sq.idx(),
                    ),
            decreases 64 - i,
        {
            if self.squares[i as usize].has_color(by) && self.attacks(Square(i), sq) {
                return true;
            }
            i += 1;
        }
        false
    }

    /// The square of the king of the given color.
    pub fn king_square(&self, color: Color) -> (sq: Square)
        requires
            has_king(self@.cells, color),
        ensures
            sq.wf(),
            is_king_square(self@.cells, color, sq.idx()),
            one_king(self@.cells, color) ==> sq.idx() == king_sq(self@.cells, color),
    {
        let king = Piece::from_type_color(PieceType::King, color);
        let mut i: u8 = 0;
        while i < 63
            invariant
                i <= 63,
                king == king_of(color),
                has_king(self@.cells, color),
                forall|j: int| 0 <= j < i ==> !#[trigger] is_king_square(self@.cells, color, j),
            decreases 63 - i,
        {
            if self.squares[i as usize] == king {
                proof {
                    assert(is_king_square(self@.cells, color, i as int));
                    if one_king(self@.cells, color) {
                        lemma_king_sq(self@.cells, color, i as int);
                    }
                }
                return Square(i);
            }
            i += 1;
        }
        proof {
            let k = choose|k: int| #[trigger] is_king_square(self@.cells, color, k);
            assert(k == 63);
            if one_king(self@.cells, color) {
                lemma_king_sq(self@.cells, color, 63);
            }
        }
        Square(63)
    }

    /// Plays a move: the source is vacated, the captured piece is removed
    /// (for an en-passant capture, the pawn beside the source), the moving
    /// or promoted piece is placed, the rook of a castling move is
    /// relocated, and rights, en-passant target, counters and the side to
    /// move are brought up to date. Returns the record that takes the move
    /// back. A legal move keeps the invariant of a position, and a
    /// pseudo-legal move can be taken back exactly.
    pub fn do_move(&mut self, m: ChessMove) -> (rev: ChessReverseMove)
        requires
            m.wf(),
        ensures
            final(self)@ == old(self)@.apply(m),
            rev == old(self)@.reverse_of(m),
            rev.wf(),
            old(self)@.wf() && old(self)@.legal(m) ==> final(self)@.wf(),
            old(self)@.wf() && old(self)@.pseudo_legal(m) ==> final(self)@.unapply(rev) == old(
                self,
            )@,
    {
        proof {
            if self@.wf() && self@.pseudo_legal(m) {
                lemma_round_trip(self@, m);
            }
            if self@.wf() && self@.legal(m) {
                lemma_apply_wf(self@, m);
            }
        }
        self.play(m)
    }

    /// Moves the pieces of a move: vacates the source, removes the captured
    /// piece, places the moving or promoted piece, and relocates the rook of
    /// a castling move. Returns the captured piece.
    fn move_pieces(&mut self, m: ChessMove) -> (captured: Piece)
        requires
            m.wf(),
        ensures
            final(self).squares@ == old(self)@.cells_after(m),
            captured == old(self)@.cells[old(self)@.capture_square(m)],
            final(self).to_move == old(self).to_move,
            final(self).castling == old(self).castling,
            final(self).en_passant == old(self).en_passant,
            final(self).half_move_clock == old(self).half_move_clock,
            final(self).full_move == old(self).full_move,
    {
        let from = m.from.0;
        let to = m.to.0;
        let piece = self.squares[from as usize];
        let home: u8 = (from / 8) * 8;
        let capture_square: u8 = if m.tag == MoveTag::EnPassantCapture {
            home + to % 8
        } else {
            to
        };
        let captured = self.squares[capture_square as usize];
        let placed = match m.promotion {
            Some(kind) => Piece::from_type_color(kind, self.to_move),
            None => piece,
        };
        let castles = m.tag == MoveTag::CastleKingSide || m.tag == MoveTag::CastleQueenSide;
        let rook_from: u8 = if m.tag == MoveTag::CastleKingSide { home + 7 } else { home };
        let rook_to: u8 = if m.tag == MoveTag::CastleKingSide { home + 5 } else { home + 3 };
        let rook = self.squares[rook_from as usize];
        self.squares[from as usize] = Piece::Empty;
        self.squares[capture_square as usize] = Piece::Empty;
        self.squares[to as usize] = placed;
        if castles {
            self.squares[rook_from as usize] = Piece::Empty;
            self.squares[rook_to as usize] = rook;
        }
        proof {
            assert(self.squares@ =~= old(self)@.cells_after(m));
        }
        captured
    }

    /// Carries out the steps of a move on the fields of the position.
    fn play(&mut self, m: ChessMove) -> (rev: ChessReverseMove)
        requires
            m.wf(),
        ensures
            final(self)@ == old(self)@.apply(m),
            rev == old(self)@.reverse_of(m),
            rev.wf(),
    {
        let from = m.from.0;
        let to = m.to.0;
        let mover = self.to_move;
        let pawn = self.squares[from as usize].piece_type() == PieceType::Pawn;
        let capture_square: u8 = if m.tag == MoveTag::EnPassantCapture {
            (from / 8) * 8 + to % 8
        } else {
            to
        };
        let castling = self.castling;
        let en_passant = self.en_passant;
        let half_move_clock = self.half_move_clock;
        let full_move = self.full_move;
        let captured = self.move_pieces(m);
        self.castling = CastlingRights {
            white_king_side: castling.white_king_side && from != E1 && to != E1 && from != H1
                && to != H1,
            white_queen_side: castling.white_queen_side && from != E1 && to != E1 && from != A1
                && to != A1,
            black_king_side: castling.black_king_side && from != E8 && to != E8 && from != H8
                && to != H8,
            black_queen_side: castling.black_queen_side && from != E8 && to != E8 && from != A8
                && to != A8,
        };
        self.en_passant = if m.tag == MoveTag::DoublePawnPush {
            Some(Square((from + to) / 2))
        } else {
            None
        };
        self.half_move_clock = if pawn || !captured.is_empty() {
            0
        } else if half_move_clock < u32::MAX {
            half_move_clock + 1
        } else {
            half_move_clock
        };
        if mover == Color::Black && full_move < u32::MAX {
            self.full_move = full_move + 1;
        }
        self.to_move = mover.opposite();
        ChessReverseMove {
            from: m.from,
            to: m.to,
            tag: m.tag,
            promoted: m.promotion.is_some(),
            captured,
            capture_square: Square(capture_square),
            castling,
            en_passant,
            half_move_clock,
            full_move,
        }
    }

    /// Takes back the move that the record was made for: every effect of
    /// `do_move` is undone from the record alone.
    pub fn reverse_move(&mut self, rev: ChessReverseMove)
        requires
            rev.wf(),
        ensures
            final(self)@ == old(self)@.unapply(rev),
    {
        let from = rev.from.0;
        let to = rev.to.0;
        let mover = self.to_move.opposite();
        let home: u8 = (from / 8) * 8;
        let moved = if rev.promoted {
            Piece::from_type_color(PieceType::Pawn, mover)
        } else {
            self.squares[to as usize]
        };
        if rev.tag == MoveTag::CastleKingSide || rev.tag == MoveTag::CastleQueenSide {
            let rook_from: u8 = if rev.tag == MoveTag::CastleKingSide { home + 7 } else { home };
            let rook_to: u8 = if rev.tag == MoveTag::CastleKingSide { home + 5 } else { home + 3 };
            let rook = self.squares[rook_to as usize];
            self.squares[rook_to as usize] = Piece::Empty;
            self.squares[rook_from as usize] = rook;
        }
        self.squares[to as usize] = Piece::Empty;
        self.squares[rev.capture_square.0 as usize] = rev.captured;
        self.squares[from as usize] = moved;
        self.to_move = mover;
        self.castling = rev.castling;
        self.en_passant = rev.en_passant;
        self.half_move_clock = rev.half_move_clock;
        self.full_move = rev.full_move;
        proof {
            assert(self@.cells =~= old(self)@.unapply(rev).cells);
        }
    }

    /// The square of the only king of a color, or `None` where the color
    /// has no king or several.
    pub fn sole_king(&self, color: Color) -> (r: Option<Square>)
        ensures
            r is Some <==> one_king(self@.cells, color),
            r is Some ==> r->Some_0.wf() && r->Some_0.idx() == king_sq(self@.cells, color),
    {
        let king = Piece::from_type_color(PieceType::King, color);
        let mut found: Option<Square> = None;
        let mut i: u8 = 0;
        while i < 64
            invariant
                i <= 64,
                king == king_of(color),
                found is None ==> forall|j: int|
                    0 <= j < i ==> !#[trigger] is_king_square(self@.cells, color, j),
                found is Some ==> found->Some_0.0 < i && is_king_square(
                    self@.cells,
                    color,
                    found->Some_0.idx(),
                ) && forall|j: int|
                    0 <= j < i && #[trigger] is_king_square(self@.cells, color, j) ==> j
                        == found->Some_0.idx(),
            decreases 64 - i,
        {
            if self.squares[i as usize] == king {
                proof {
                    assert(is_king_square(self@.cells, color, i as int));
                }
                if found.is_some() {
                    return None;
                }
                found = Some(Square(i));
            }
            i += 1;
        }
        proof {
            if found is Some {
                lemma_king_sq(self@.cells, color, found->Some_0.idx());
            }
        }
        found
    }

    /// Looks for what keeps the position from being a position of a game.
    pub fn validate(&self) -> (r: Result<(), PositionError>)
        ensures
            r is Ok <==> self@.wf(),
            r == (match self@.fault() {
                Some(e) => Err::<(), PositionError>(e),
                None => Ok(()),
            }),
    {
        let white_king = self.sole_king(Color::White);
        let black_king = self.sole_king(Color::Black);
        if white_king.is_none() || black_king.is_none() {
            return Err(PositionError::Kings);
        }
        let c = self.castling;
        let white_home = self.squares[E1 as usize] == Piece::WhiteKing;
        let black_home = self.squares[E8 as usize] == Piece::BlackKing;
        if (c.white_king_side && !(white_home && self.squares[H1 as usize] == Piece::WhiteRook))
            || (c.white_queen_side && !(white_home && self.squares[A1 as usize]
            == Piece::WhiteRook)) || (c.black_king_side && !(black_home
            && self.squares[H8 as usize] == Piece::BlackRook)) || (c.black_queen_side && !(
        black_home && self.squares[A8 as usize] == Piece::BlackRook)) {
            return Err(PositionError::Castling);
        }
        match self.en_passant {
            None => {},
            Some(t) => {
                let white = self.to_move == Color::White;
                let rank: u8 = if white { 2 } else { 5 };
                if t.0 >= 64 || t.0 / 8 != rank {
                    return Err(PositionError::EnPassant);
                }
                let beyond: u8 = if white { t.0 + 8 } else { t.0 - 8 };
                let pawn = if white { Piece::BlackPawn } else { Piece::WhitePawn };
                if !self.squares[t.0 as usize].is_empty() || self.squares[beyond as usize] != pawn {
                    return Err(PositionError::EnPassant);
                }
            },
        }
        let other_king = match self.to_move {
            Color::White => black_king.unwrap(),
            Color::Black => white_king.unwrap(),
        };
        if self.is_square_attacked(other_king, self.to_move) {
            return Err(PositionError::KingCapturable);
        }
        Ok(())
    }

    /// Makes a position from its parts, which a reader of position
    /// descriptions hands over. The parts are refused unless they
    /// make a position of a game.
    pub fn from_parts(
        squares: [Piece; 64],
        to_move: Color,
        castling: CastlingRights,
        en_passant: Option<Square>,
        half_move_clock: u32,
        full_move: u32,
    ) -> (r: Result<ChessBoard, PositionError>)
        ensures
            r is Ok <==> (Position {
                cells: squares@,
                to_move,
                castling,
                en_passant,
                half_move_clock,
                full_move,
            }).wf(),
            r is Ok ==> r->Ok_0@ == (Position {
                cells: squares@,
                to_move,
                castling,
                en_passant,
                half_move_clock,
                full_move,
            }),
            r is Err ==> Some(r->Err_0) == (Position {
                cells: squares@,
                to_move,
                castling,
                en_passant,
                half_move_clock,
                full_move,
            }).fault(),
    {
        let board = ChessBoard {
            squares,
            to_move,
            castling,
            en_passant,
            half_move_clock,
            full_move,
        };
        match board.validate() {
            Ok(()) => Ok(board),
            Err(e) => Err(e),
        }
    }
}

} // verus!
