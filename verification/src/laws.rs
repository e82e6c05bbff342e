//! What holds of every position of a game and of every move played on it.

use crate::chess_board::{
    home_rank, is_king_square, king_home, king_of, king_sq, lemma_king_sq, one_king, rook_source,
    rook_target, Position,
};
use crate::chess_move::{CastlingRights, ChessMove, MoveTag};
use crate::geometry::{attacked, between, dist, lemma_coordinates, path_clear, piece_attacks};
use crate::types::{file_of, on_board, rank_of, Color, Piece, PieceType, Square};
use crate::types::{A1, A8, E1, E8, H1, H8};
use vstd::prelude::*;

verus! {

/// What a pseudo-legal move finds on the squares that it touches: the
/// source and the destination differ, the destination holds no piece of the
/// mover's side, and the square from which a piece is captured is none of
/// the two kings'.
pub proof fn lemma_move_squares(s: Position, m: ChessMove)
    requires
        s.wf(),
        s.pseudo_legal(m),
    ensures
        m.from != m.to,
        on_board(s.capture_square(m)),
        s.capture_square(m) != m.from.idx(),
        s.cells[m.to.idx()].spec_color() != Some(s.to_move),
        s.cells[s.capture_square(m)].spec_color() != Some(s.to_move),
        s.cells[s.capture_square(m)] != king_of(s.to_move.other()),
        m.tag == MoveTag::EnPassantCapture ==> s.cells[m.to.idx()] == Piece::Empty
            && s.capture_square(m) != m.to.idx(),
        s.placed_piece(m).spec_color() == Some(s.to_move),
        s.placed_piece(m) != king_of(s.to_move) || s.cells[m.from.idx()] == king_of(s.to_move),
{
    let a = m.from.idx();
    let b = m.to.idx();
    let c = s.to_move;
    lemma_coordinates(a);
    lemma_coordinates(b);
    let k = king_sq(s.cells, c.other());
    assert(is_king_square(s.cells, c.other(), k));
    if s.cells[s.capture_square(m)] == king_of(c.other()) {
        assert(is_king_square(s.cells, c.other(), s.capture_square(m)));
        assert(s.capture_square(m) == k);
        assert(piece_attacks(s.cells, a, b));
        assert(attacked(s.cells, k, c));
    }
}

/// After a pseudo-legal move the mover still has exactly one king: on the
/// destination if the king moved, else where it stood.
pub proof fn lemma_mover_king_after(s: Position, m: ChessMove)
    requires
        s.wf(),
        s.pseudo_legal(m),
    ensures
        one_king(s.cells_after(m), s.to_move),
        king_sq(s.cells_after(m), s.to_move) == (if s.cells[m.from.idx()] == king_of(s.to_move) {
            m.to.idx()
        } else {
            king_sq(s.cells, s.to_move)
        }),
{
    let c = s.to_move;
    let a = m.from.idx();
    let b = m.to.idx();
    let after = s.cells_after(m);
    let k0 = king_sq(s.cells, c);
    assert(is_king_square(s.cells, c, k0));
    lemma_move_squares(s, m);
    lemma_coordinates(a);
    lemma_coordinates(b);
    let k1 = if s.cells[a] == king_of(c) {
        b
    } else {
        k0
    };
    if s.cells[a] == king_of(c) {
        assert(is_king_square(s.cells, c, a));
    }
    assert(is_king_square(after, c, k1));
    assert forall|x: int| #[trigger] is_king_square(after, c, x) implies x == k1 by {
        if x != b && x != a && x != s.capture_square(m) && x != rook_source(a, m.tag) && x
            != rook_target(a, m.tag) {
            assert(is_king_square(s.cells, c, x));
        } else if x != b && x != a && x != s.capture_square(m) {
            if m.tag == MoveTag::CastleKingSide || m.tag == MoveTag::CastleQueenSide {
                if x == rook_target(a, m.tag) {
                    assert(after[x] == s.cells[rook_source(a, m.tag)]);
                    assert(is_king_square(s.cells, c, rook_source(a, m.tag)));
                }
            } else {
                assert(is_king_square(s.cells, c, x));
            }
        }
    }
    lemma_king_sq(after, c, k1);
}

/// Taking back a pseudo-legal move with its own record gives the position
/// from before the move, in every field.
pub proof fn lemma_round_trip(s: Position, m: ChessMove)
    requires
        s.wf(),
        s.pseudo_legal(m),
    ensures
        s.apply(m).unapply(s.reverse_of(m)) == s,
{
    let a = m.from.idx();
    let b = m.to.idx();
    lemma_move_squares(s, m);
    lemma_coordinates(a);
    lemma_coordinates(b);
    let back = s.apply(m).unapply(s.reverse_of(m));
    assert(back.cells =~= s.cells);
}

/// A legal move leads from a position of a game to a position of a game.
pub proof fn lemma_apply_wf(s: Position, m: ChessMove)
    requires
        s.wf(),
        s.legal(m),
    ensures
        s.apply(m).wf(),
{
    let c = s.to_move;
    let e = c.other();
    let a = m.from.idx();
    let b = m.to.idx();
    let t = s.apply(m);
    let after = s.cells_after(m);
    lemma_move_squares(s, m);
    lemma_mover_king_after(s, m);
    lemma_coordinates(a);
    lemma_coordinates(b);
    // The other side keeps its king where it stood.
    let k = king_sq(s.cells, e);
    assert(is_king_square(s.cells, e, k));
    assert(is_king_square(after, e, k));
    assert forall|x: int| #[trigger] is_king_square(after, e, x) implies x == k by {
        if x != b && x != a && x != s.capture_square(m) && x != rook_source(a, m.tag) && x
            != rook_target(a, m.tag) {
            assert(is_king_square(s.cells, e, x));
        } else if x != b && x != a && x != s.capture_square(m) {
            if m.tag == MoveTag::CastleKingSide || m.tag == MoveTag::CastleQueenSide {
                assert(s.cells[rook_source(a, m.tag)].spec_color() == Some(c));
            } else {
                assert(is_king_square(s.cells, e, x));
            }
        }
    }
    assert(one_king(after, e));
    assert(one_king(after, Color::White) && one_king(after, Color::Black));
    assert(t.castling_consistent());
    assert(t.en_passant_consistent());
}

/// The castling rights after a pseudo-legal move, in the words of the
/// rule: a side keeps a right unless its king moves, a piece leaves the home
/// square of the right's rook, or a piece lands on that square.
pub proof fn lemma_castling_rights(s: Position, m: ChessMove)
    requires
        s.wf(),
        s.pseudo_legal(m),
    ensures
        s.castling_after(m) == (CastlingRights {
            white_king_side: s.castling.white_king_side && s.cells[m.from.idx()]
                != Piece::WhiteKing && m.from.0 != H1 && m.to.0 != H1,
            white_queen_side: s.castling.white_queen_side && s.cells[m.from.idx()]
                != Piece::WhiteKing && m.from.0 != A1 && m.to.0 != A1,
            black_king_side: s.castling.black_king_side && s.cells[m.from.idx()]
                != Piece::BlackKing && m.from.0 != H8 && m.to.0 != H8,
            black_queen_side: s.castling.black_queen_side && s.cells[m.from.idx()]
                != Piece::BlackKing && m.from.0 != A8 && m.to.0 != A8,
        }),
{
    lemma_move_squares(s, m);
    assert(is_king_square(s.cells, Color::White, king_sq(s.cells, Color::White)));
    assert(is_king_square(s.cells, Color::Black, king_sq(s.cells, Color::Black)));
    if s.castling.white_king_side || s.castling.white_queen_side {
        assert(is_king_square(s.cells, Color::White, E1 as int));
    }
    if s.castling.black_king_side || s.castling.black_queen_side {
        assert(is_king_square(s.cells, Color::Black, E8 as int));
    }
    if s.cells[m.from.idx()] == Piece::WhiteKing {
        assert(is_king_square(s.cells, Color::White, m.from.idx()));
    }
    if s.cells[m.from.idx()] == Piece::BlackKing {
        assert(is_king_square(s.cells, Color::Black, m.from.idx()));
    }
}

/// Whether a square is attacked by a side depends only on which squares
/// are empty and on where that side's pieces stand.
pub proof fn lemma_attack_depends(c1: Seq<Piece>, c2: Seq<Piece>, sq: int, by: Color)
    requires
        forall|i: int|
            on_board(i) ==> ((#[trigger] c1[i] == Piece::Empty) <==> (#[trigger] c2[i]
                == Piece::Empty)),
        forall|i: int|
            on_board(i) && ((#[trigger] c1[i]).spec_color() == Some(by) || (
            #[trigger] c2[i]).spec_color() == Some(by)) ==> c1[i] == c2[i],
    ensures
        attacked(c1, sq, by) == attacked(c2, sq, by),
{
    if attacked(c1, sq, by) {
        let a = choose|a: int|
            on_board(a) && c1[a].spec_color() == Some(by) && #[trigger] piece_attacks(c1, a, sq);
        assert(c1[a] == c2[a]);
        if path_clear(c1, a, sq) {
            assert forall|x: int| on_board(x) && between(a, sq, x) implies #[trigger] c2[x]
                == Piece::Empty by {
                assert(c1[x] == Piece::Empty);
            }
        }
        assert(piece_attacks(c2, a, sq));
    }
    if attacked(c2, sq, by) {
        let a = choose|a: int|
            on_board(a) && c2[a].spec_color() == Some(by) && #[trigger] piece_attacks(c2, a, sq);
        assert(c1[a] == c2[a]);
        if path_clear(c2, a, sq) {
            assert forall|x: int| on_board(x) && between(a, sq, x) implies #[trigger] c1[x]
                == Piece::Empty by {
                assert(c2[x] == Piece::Empty);
            }
        }
        assert(piece_attacks(c1, a, sq));
    }
}

/// The castling move of a side towards the h-file.
pub open spec fn king_side_castle(color: Color) -> ChessMove {
    ChessMove {
        from: Square(king_home(color) as u8),
        to: Square((king_home(color) + 2) as u8),
        promotion: None,
        tag: MoveTag::CastleKingSide,
    }
}

/// The castling move of a side towards the a-file.
pub open spec fn queen_side_castle(color: Color) -> ChessMove {
    ChessMove {
        from: Square(king_home(color) as u8),
        to: Square((king_home(color) - 2) as u8),
        promotion: None,
        tag: MoveTag::CastleQueenSide,
    }
}

/// The king that has castled is attacked on its new square only if that
/// square was attacked before.
proof fn lemma_castled_king(s: Position, m: ChessMove)
    requires
        s.wf(),
        s.pseudo_legal(m),
        m.tag == MoveTag::CastleKingSide || m.tag == MoveTag::CastleQueenSide,
    ensures
        s.king_safe_after(m),
{
    let c = s.to_move;
    let e = c.other();
    let h = m.from.idx();
    let b = m.to.idx();
    let after = s.cells_after(m);
    let rs = rook_source(h, m.tag);
    let rt = rook_target(h, m.tag);
    lemma_mover_king_after(s, m);
    lemma_coordinates(h);
    lemma_coordinates(b);
    assert(s.cells[h] == king_of(c));
    assert(s.cells[rs] == Piece::spec_from_type_color(PieceType::Rook, c));
    assert(after[rt] == s.cells[rs]);
    if attacked(after, b, e) {
        let a = choose|a: int|
            on_board(a) && after[a].spec_color() == Some(e) && #[trigger] piece_attacks(
                after,
                a,
                b,
            );
        lemma_coordinates(a);
        assert(after[a] == s.cells[a]);
        if path_clear(after, a, b) {
            assert forall|x: int| on_board(x) && between(a, b, x) implies #[trigger] s.cells[x]
                == Piece::Empty by {
                lemma_coordinates(x);
                assert(after[x] == Piece::Empty);
                if x == h || x == rs {
                    assert(between(a, b, rt));
                    assert(after[rt] == Piece::Empty);
                }
            }
        }
        assert(piece_attacks(s.cells, a, b));
        assert(attacked(s.cells, b, e));
    }
}

/// Castling towards the h-file is legal exactly when the side to move still
/// holds the right, the two squares between king and rook are empty, and
/// none of the king's square, the square it passes and the square it lands
/// on is attacked. No other move of that kind is legal.
pub proof fn lemma_castle_king_side(s: Position, m: ChessMove)
    requires
        s.wf(),
        m.tag == MoveTag::CastleKingSide,
    ensures
        s.legal(king_side_castle(s.to_move)) <==> ({
            let h = king_home(s.to_move);
            let e = s.to_move.other();
            &&& s.castling.spec_king_side(s.to_move)
            &&& s.cells[h + 1] == Piece::Empty
            &&& s.cells[h + 2] == Piece::Empty
            &&& !attacked(s.cells, h, e)
            &&& !attacked(s.cells, h + 1, e)
            &&& !attacked(s.cells, h + 2, e)
        }),
        s.legal(m) ==> m == king_side_castle(s.to_move),
{
    let k = king_side_castle(s.to_move);
    if s.castle_move(k) {
        assert(s.pseudo_legal(k));
        lemma_castled_king(s, k);
    }
}

/// Castling towards the a-file is legal exactly when the side to move still
/// holds the right, the three squares between king and rook are empty, and
/// none of the king's square, the square it passes and the square it lands
/// on is attacked. No other move of that kind is legal.
pub proof fn lemma_castle_queen_side(s: Position, m: ChessMove)
    requires
        s.wf(),
        m.tag == MoveTag::CastleQueenSide,
    ensures
        s.legal(queen_side_castle(s.to_move)) <==> ({
            let h = king_home(s.to_move);
            let e = s.to_move.other();
            &&& s.castling.spec_queen_side(s.to_move)
            &&& s.cells[h - 1] == Piece::Empty
            &&& s.cells[h - 2] == Piece::Empty
            &&& s.cells[h - 3] == Piece::Empty
            &&& !attacked(s.cells, h, e)
            &&& !attacked(s.cells, h - 1, e)
            &&& !attacked(s.cells, h - 2, e)
        }),
        s.legal(m) ==> m == queen_side_castle(s.to_move),
{
    let k = queen_side_castle(s.to_move);
    if s.castle_move(k) {
        assert(s.pseudo_legal(k));
        lemma_castled_king(s, k);
    }
}

/// An en-passant capture is possible right after a double pawn push, and
/// only then: it is pseudo-legal in the position after a legal move exactly
/// when that move was a double pawn push, the capture leads onto the square
/// that the pawn passed over, and a pawn of the capturing side stands beside
/// the pawn that was pushed. It is legal if, in addition, it does not leave
/// the capturing side's king attacked.
pub proof fn lemma_en_passant(s: Position, m: ChessMove, e: ChessMove)
    requires
        s.wf(),
        s.legal(m),
        e.tag == MoveTag::EnPassantCapture,
    ensures
        s.apply(m).pseudo_legal(e) <==> ({
            &&& m.tag == MoveTag::DoublePawnPush
            &&& e.wf()
            &&& e.promotion is None
            &&& e.to.idx() == (m.from.idx() + m.to.idx()) / 2
            &&& s.apply(m).en_passant == Some(e.to)
            &&& s.apply(m).cells[e.from.idx()] == Piece::spec_from_type_color(
                PieceType::Pawn,
                s.to_move.other(),
            )
            &&& rank_of(e.from.idx()) == rank_of(m.to.idx())
            &&& dist(file_of(e.from.idx()) - file_of(m.to.idx())) == 1
        }),
        s.apply(m).legal(e) <==> (s.apply(m).pseudo_legal(e) && s.apply(m).king_safe_after(e)),
        s.apply(m).en_passant is Some <==> m.tag == MoveTag::DoublePawnPush,
{
    lemma_coordinates(m.from.idx());
    lemma_coordinates(m.to.idx());
    if e.wf() {
        lemma_coordinates(e.from.idx());
        lemma_coordinates(e.to.idx());
    }
}

/// The same move with another promotion piece.
pub open spec fn promoting(m: ChessMove, kind: PieceType) -> ChessMove {
    ChessMove { from: m.from, to: m.to, promotion: Some(kind), tag: m.tag }
}

/// A pawn reaches the last rank by exactly four legal moves between the
/// same two squares, one for each of knight, bishop, rook and queen: a legal
/// move of a pawn to the last rank promotes to one of the four, and with
/// every other one of the four it is legal too.
pub proof fn lemma_promotion(s: Position, m: ChessMove, kind: PieceType)
    requires
        s.wf(),
        s.legal(m),
        s.cells[m.from.idx()].spec_piece_type() == PieceType::Pawn,
        rank_of(m.to.idx()) == home_rank(s.to_move.other()),
    ensures
        m.tag == MoveTag::Normal,
        m.promotion is Some,
        m.promotion->Some_0.is_promotion_kind(),
        kind.is_promotion_kind() ==> s.legal(promoting(m, kind)),
{
    lemma_coordinates(m.from.idx());
    lemma_coordinates(m.to.idx());
    if kind.is_promotion_kind() {
        let x = promoting(m, kind);
        assert(s.pseudo_legal(x));
        lemma_mover_king_after(s, m);
        lemma_mover_king_after(s, x);
        lemma_attack_depends(
            s.cells_after(m),
            s.cells_after(x),
            king_sq(s.cells, s.to_move),
            s.to_move.other(),
        );
    }
}

} // verus!
