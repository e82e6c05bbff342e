//! How the pieces move over the board: lines, jumps and steps between
//! squares, and which squares a piece attacks.

use crate::types::{file_of, on_board, rank_of, Color, Piece};
use vstd::prelude::*;

verus! {

/// The absolute value of an integer.
pub open spec fn dist(x: int) -> int {
    if x < 0 {
        -x
    } else {
        x
    }
}

/// The sign of an integer: -1, 0 or 1.
pub open spec fn sign(x: int) -> int {
    if x < 0 {
        -1
    } else if x == 0 {
        0
    } else {
        1
    }
}

/// Two different squares on one file or one rank.
pub open spec fn rook_line(a: int, b: int) -> bool {
    a != b && (file_of(a) == file_of(b) || rank_of(a) == rank_of(b))
}

/// Two different squares on one diagonal.
pub open spec fn bishop_line(a: int, b: int) -> bool {
    a != b && dist(file_of(b) - file_of(a)) == dist(rank_of(b) - rank_of(a))
}

/// A knight's jump leads from one square to the other.
pub open spec fn knight_jump(a: int, b: int) -> bool {
    let df = dist(file_of(b) - file_of(a));
    let dr = dist(rank_of(b) - rank_of(a));
    (df == 1 && dr == 2) || (df == 2 && dr == 1)
}

/// The two squares touch, by a side or by a corner.
pub open spec fn king_step(a: int, b: int) -> bool {
    a != b && dist(file_of(b) - file_of(a)) <= 1 && dist(rank_of(b) - rank_of(a)) <= 1
}

/// The change of rank of a pawn's advance: white pawns go towards rank 0.
pub open spec fn forward(color: Color) -> int {
    match color {
        Color::White => -1,
        Color::Black => 1,
    }
}

/// A pawn of the given color on `a` captures towards `b`: one rank
/// forward and one file aside.
pub open spec fn pawn_capture_step(color: Color, a: int, b: int) -> bool {
    dist(file_of(b) - file_of(a)) == 1 && rank_of(b) - rank_of(a) == forward(color)
}

/// The point `(fm, rm)` lies on the straight line from `(fa, ra)` to
/// `(fb, rb)`, strictly between them. Points are given by file and rank.
pub open spec fn between_points(fa: int, ra: int, fb: int, rb: int, fm: int, rm: int) -> bool {
    ||| (ra == rb && rm == ra && (fa < fm < fb || fb < fm < fa))
    ||| (fa == fb && fm == fa && (ra < rm < rb || rb < rm < ra))
    ||| (fb - fa == rb - ra && fm - fa == rm - ra && (fa < fm < fb || fb < fm < fa))
    ||| (fb - fa == ra - rb && fm - fa == ra - rm && (fa < fm < fb || fb < fm < fa))
}

/// The square `m` lies on the straight line from `a` to `b`, strictly
/// between them.
pub open spec fn between(a: int, b: int, m: int) -> bool {
    between_points(file_of(a), rank_of(a), file_of(b), rank_of(b), file_of(m), rank_of(m))
}

/// The point `(f, r)` lies on the ray that leaves `(fa, ra)` in the
/// direction `(sf, sr)`, at least one step away.
pub open spec fn on_ray(fa: int, ra: int, sf: int, sr: int, f: int, r: int) -> bool {
    &&& sign(f - fa) == sf
    &&& sign(r - ra) == sr
    &&& (sf != 0 || sr != 0)
    &&& (sf == 0 || sr == 0 || dist(f - fa) == dist(r - ra))
}

/// Every square strictly between `a` and `b` is empty.
pub open spec fn path_clear(cells: Seq<Piece>, a: int, b: int) -> bool {
    forall|m: int| on_board(m) && between(a, b, m) ==> #[trigger] cells[m] == Piece::Empty
}

/// Every square strictly between the square `a` and the point `(f, r)`,
/// which may lie off the board, is empty.
pub open spec fn clear_towards(cells: Seq<Piece>, a: int, f: int, r: int) -> bool {
    forall|m: int|
        on_board(m) && between_points(file_of(a), rank_of(a), f, r, file_of(m), rank_of(m))
            ==> #[trigger] cells[m] == Piece::Empty
}

/// The square `b` lies on the ray that leaves the square `a` in the
/// direction `(sf, sr)`.
pub open spec fn ray_from(a: int, sf: int, sr: int, b: int) -> bool {
    on_ray(file_of(a), rank_of(a), sf, sr, file_of(b), rank_of(b))
}

/// The place of a knight's jump in the list of the eight jumps, by its change
/// of file and of rank; 8 if it is none of them.
pub open spec fn jump_index(df: int, dr: int) -> int {
    if df == 1 && dr == 2 {
        0
    } else if df == 2 && dr == 1 {
        1
    } else if df == 2 && dr == -1 {
        2
    } else if df == 1 && dr == -2 {
        3
    } else if df == -1 && dr == -2 {
        4
    } else if df == -2 && dr == -1 {
        5
    } else if df == -2 && dr == 1 {
        6
    } else if df == -1 && dr == 2 {
        7
    } else {
        8
    }
}

/// The place of a direction in the list of the eight directions, by its
/// change of file and of rank; 8 if it is none of them. The even places are
/// the directions along files and ranks, the odd ones the diagonals.
pub open spec fn step_index(df: int, dr: int) -> int {
    if df == 1 && dr == 0 {
        0
    } else if df == 1 && dr == 1 {
        1
    } else if df == 0 && dr == 1 {
        2
    } else if df == -1 && dr == 1 {
        3
    } else if df == -1 && dr == 0 {
        4
    } else if df == -1 && dr == -1 {
        5
    } else if df == 0 && dr == -1 {
        6
    } else if df == 1 && dr == -1 {
        7
    } else {
        8
    }
}

/// The place in the list of directions of the direction from `a` towards `b`.
pub open spec fn direction_index(a: int, b: int) -> int {
    step_index(sign(file_of(b) - file_of(a)), sign(rank_of(b) - rank_of(a)))
}

/// The piece on `a`, if there is one, attacks the square `b`: it could
/// capture there if an enemy piece stood on `b`.
pub open spec fn piece_attacks(cells: Seq<Piece>, a: int, b: int) -> bool {
    match cells[a] {
        Piece::Empty => false,
        Piece::WhitePawn => pawn_capture_step(Color::White, a, b),
        Piece::BlackPawn => pawn_capture_step(Color::Black, a, b),
        Piece::WhiteKnight | Piece::BlackKnight => knight_jump(a, b),
        Piece::WhiteBishop | Piece::BlackBishop => bishop_line(a, b) && path_clear(cells, a, b),
        Piece::WhiteRook | Piece::BlackRook => rook_line(a, b) && path_clear(cells, a, b),
        Piece::WhiteQueen | Piece::BlackQueen => (rook_line(a, b) || bishop_line(a, b))
            && path_clear(cells, a, b),
        Piece::WhiteKing | Piece::BlackKing => king_step(a, b),
    }
}

/// Some piece of the color `by` attacks the square `sq`.
pub open spec fn attacked(cells: Seq<Piece>, sq: int, by: Color) -> bool {
    exists|a: int|
        on_board(a) && cells[a].spec_color() == Some(by) && #[trigger] piece_attacks(cells, a, sq)
}

/// One more step along a ray adds exactly the point left behind to the
/// points passed on the way.
pub proof fn lemma_ray_step(fa: int, ra: int, sf: int, sr: int, f: int, r: int, fx: int, rx: int)
    requires
        on_ray(fa, ra, sf, sr, f, r),
    ensures
        on_ray(fa, ra, sf, sr, f + sf, r + sr),
        between_points(fa, ra, f + sf, r + sr, fx, rx) <==> (between_points(fa, ra, f, r, fx, rx)
            || (fx == f && rx == r)),
{
}

/// Nothing lies between a point and the first point of a ray that leaves it.
pub proof fn lemma_ray_start(fa: int, ra: int, sf: int, sr: int, fx: int, rx: int)
    requires
        -1 <= sf <= 1,
        -1 <= sr <= 1,
        sf != 0 || sr != 0,
    ensures
        on_ray(fa, ra, sf, sr, fa + sf, ra + sr),
        !between_points(fa, ra, fa + sf, ra + sr, fx, rx),
{
}

/// Two points of one ray: the nearer one lies between the start and the
/// farther one, or they are the same point.
pub proof fn lemma_ray_order(fa: int, ra: int, sf: int, sr: int, f: int, r: int, fb: int, rb: int)
    requires
        on_ray(fa, ra, sf, sr, f, r),
        on_ray(fa, ra, sf, sr, fb, rb),
    ensures
        (f == fb && r == rb) || between_points(fa, ra, fb, rb, f, r) || between_points(
            fa,
            ra,
            f,
            r,
            fb,
            rb,
        ),
        between_points(fa, ra, fb, rb, f, r) ==> dist(fb - f) + dist(rb - r) > dist(fb - (f + sf))
            + dist(rb - (r + sr)),
        between_points(fa, ra, fb, rb, f, r) ==> (f + sf == fb && r + sr == rb) || between_points(
            fa,
            ra,
            fb,
            rb,
            f + sf,
            r + sr,
        ),
{
}

/// A square is given by its file and its rank.
pub proof fn lemma_coordinates(x: int)
    requires
        on_board(x),
    ensures
        0 <= file_of(x) < 8,
        0 <= rank_of(x) < 8,
        x == rank_of(x) * 8 + file_of(x),
{
}

/// The file and the rank of the square that is made of them.
pub proof fn lemma_square_of(f: int, r: int)
    requires
        0 <= f < 8,
        0 <= r < 8,
    ensures
        on_board(r * 8 + f),
        file_of(r * 8 + f) == f,
        rank_of(r * 8 + f) == r,
{
}

} // verus!
