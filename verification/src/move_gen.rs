//! Which moves a position allows, and the generator that lists them.
//!
//! A move is pseudo-legal when it obeys the way its piece moves. It is legal
//! when, in addition, it does not leave the mover's own king attacked.

use crate::chess_board::{home_rank, king_home, king_sq, one_king, ChessBoard, Position};
use crate::chess_move::{ChessMove, MoveTag};
use crate::geometry::{
    attacked, between_points, clear_towards, direction_index, forward, jump_index,
    lemma_coordinates, lemma_ray_order, lemma_ray_start, lemma_ray_step, lemma_square_of, on_ray,
    pawn_capture_step, piece_attacks, ray_from, step_index,
};
use crate::types::{file_of, on_board, rank_of, Color, Piece, PieceType, Square};
use crate::laws::{lemma_mover_king_after, lemma_round_trip};
use crate::types::{E1, E8};
use vstd::prelude::*;

verus! {

impl Position {
    /// A pawn that reaches the last rank becomes a knight, a bishop, a rook
    /// or a queen; a pawn that does not is not promoted.
    pub open spec fn promotion_ok(self, m: ChessMove) -> bool {
        if rank_of(m.to.idx()) == home_rank(self.to_move.other()) {
            m.promotion is Some && m.promotion->Some_0.is_promotion_kind()
        } else {
            m.promotion is None
        }
    }

    /// The move is one that a pawn of the side to move on the source square can make:
    /// an advance to the empty square ahead; an advance of two ranks from
    /// the starting rank over an empty square to an empty square; a
    /// capture of an enemy piece diagonally ahead; or a capture onto the
    /// en-passant target.
    pub open spec fn pawn_move(self, m: ChessMove) -> bool {
        let a = m.from.idx();
        let b = m.to.idx();
        let c = self.to_move;
        ||| (m.tag == MoveTag::Normal && file_of(b) == file_of(a) && rank_of(b) == rank_of(a)
            + forward(c) && self.cells[b] == Piece::Empty && self.promotion_ok(m))
        ||| (m.tag == MoveTag::DoublePawnPush && file_of(b) == file_of(a) && rank_of(a)
            == home_rank(c) + forward(c) && rank_of(b) == rank_of(a) + 2 * forward(c)
            && self.cells[a + 8 * forward(c)] == Piece::Empty && self.cells[b] == Piece::Empty
            && m.promotion is None)
        ||| (m.tag == MoveTag::Normal && pawn_capture_step(c, a, b) && self.cells[b].spec_color()
            == Some(c.other()) && self.promotion_ok(m))
        ||| (m.tag == MoveTag::EnPassantCapture && pawn_capture_step(c, a, b) && self.en_passant
            == Some(m.to) && m.promotion is None)
    }

    /// The move takes the piece on the source square to a square of the board
    /// that it attacks and that holds no piece of its own side.
    pub open spec fn piece_move(self, m: ChessMove) -> bool {
        &&& m.wf()
        &&& m.tag == MoveTag::Normal
        &&& m.promotion is None
        &&& piece_attacks(self.cells, m.from.idx(), m.to.idx())
        &&& self.cells[m.to.idx()].spec_color() != Some(self.to_move)
    }

    /// The move is a castling move that the position allows: the king stands
    /// on its home square and is not attacked, the right is still held, the
    /// squares between king and rook are empty, and neither the square that
    /// the king passes nor the one it lands on is attacked.
    pub open spec fn castle_move(self, m: ChessMove) -> bool {
        let a = m.from.idx();
        let c = self.to_move;
        &&& m.promotion is None
        &&& a == king_home(c)
        &&& !attacked(self.cells, a, c.other())
        &&& ({
            ||| (m.tag == MoveTag::CastleKingSide && self.castling.spec_king_side(c) && m.to.idx()
                == a + 2 && self.cells[a + 1] == Piece::Empty && self.cells[a + 2]
                == Piece::Empty && !attacked(self.cells, a + 1, c.other()) && !attacked(
                self.cells,
                a + 2,
                c.other(),
            ))
            ||| (m.tag == MoveTag::CastleQueenSide && self.castling.spec_queen_side(c)
                && m.to.idx() == a - 2 && self.cells[a - 1] == Piece::Empty && self.cells[a - 2]
                == Piece::Empty && self.cells[a - 3] == Piece::Empty && !attacked(
                self.cells,
                a - 1,
                c.other(),
            ) && !attacked(self.cells, a - 2, c.other()))
        })
    }

    /// The move obeys the way the piece on its source square moves, and that
    /// piece belongs to the side to move.
    pub open spec fn pseudo_legal(self, m: ChessMove) -> bool {
        &&& m.wf()
        &&& self.cells[m.from.idx()].spec_color() == Some(self.to_move)
        &&& match self.cells[m.from.idx()].spec_piece_type() {
            PieceType::Empty => false,
            PieceType::Pawn => self.pawn_move(m),
            PieceType::King => self.piece_move(m) || self.castle_move(m),
            _ => self.piece_move(m),
        }
    }

    /// After the move the mover's king is not attacked.
    pub open spec fn king_safe_after(self, m: ChessMove) -> bool {
        !attacked(
            self.cells_after(m),
            king_sq(self.cells_after(m), self.to_move),
            self.to_move.other(),
        )
    }

    /// The move is pseudo-legal and does not leave the mover's king attacked.
    pub open spec fn legal(self, m: ChessMove) -> bool {
        self.pseudo_legal(m) && self.king_safe_after(m)
    }
}

/// What a list holds after one more move is put at its end.
pub proof fn lemma_push_move(s: Seq<ChessMove>, x: ChessMove)
    ensures
        forall|y: ChessMove| #[trigger] s.push(x).contains(y) <==> (s.contains(y) || y == x),
        s.no_duplicates() && !s.contains(x) ==> s.push(x).no_duplicates(),
{
    assert forall|y: ChessMove| #[trigger] s.push(x).contains(y) <==> (s.contains(y) || y
        == x) by {
        if s.contains(y) {
            let i = choose|i: int| 0 <= i < s.len() && s[i] == y;
            assert(s.push(x)[i] == y);
        }
        if y == x {
            assert(s.push(x)[s.len() as int] == y);
        }
    }
}

/// Puts a move that the list does not hold yet at its end.
fn append_move(moves: &mut Vec<ChessMove>, m: ChessMove)
    requires
        old(moves)@.no_duplicates(),
        !old(moves)@.contains(m),
    ensures
        final(moves)@ == old(moves)@.push(m),
        final(moves)@.no_duplicates(),
        forall|y: ChessMove|
            #[trigger] final(moves)@.contains(y) <==> (old(moves)@.contains(y) || y == m),
{
    proof {
        lemma_push_move(moves@, m);
    }
    moves.push(m);
}

/// One of the eight knight's jumps, as a change of file and of rank.
fn jump_offset(k: u8) -> (d: (i8, i8))
    requires
        k < 8,
    ensures
        jump_index(d.0 as int, d.1 as int) == k,
{
    match k {
        0 => (1, 2),
        1 => (2, 1),
        2 => (2, -1),
        3 => (1, -2),
        4 => (-1, -2),
        5 => (-2, -1),
        6 => (-2, 1),
        _ => (-1, 2),
    }
}

/// One of the eight directions, as a change of file and of rank.
fn step_offset(k: u8) -> (d: (i8, i8))
    requires
        k < 8,
    ensures
        step_index(d.0 as int, d.1 as int) == k,
{
    match k {
        0 => (1, 0),
        1 => (1, 1),
        2 => (0, 1),
        3 => (-1, 1),
        4 => (-1, 0),
        5 => (-1, -1),
        6 => (0, -1),
        _ => (1, -1),
    }
}

impl ChessBoard {
    /// Adds the moves of the knight or the king on `from` to the squares
    /// that it attacks: each of the eight jumps or steps that stays on the
    /// board and does not end on a piece of its own side.
    fn gen_steps(&self, from: Square, knight: bool, moves: &mut Vec<ChessMove>)
        requires
            from.wf(),
            self@.cells[from.idx()].spec_color() == Some(self@.to_move),
            self@.cells[from.idx()].spec_piece_type() == (if knight {
                PieceType::Knight
            } else {
                PieceType::King
            }),
            old(moves)@.no_duplicates(),
            forall|m: ChessMove| #[trigger] old(moves)@.contains(m) ==> m.from != from,
        ensures
            final(moves)@.no_duplicates(),
            forall|m: ChessMove|
                #[trigger] final(moves)@.contains(m) <==> (old(moves)@.contains(m) || (m.from
                    == from && self@.piece_move(m))),
    {
        let fa: i8 = (from.0 % 8) as i8;
        let ra: i8 = (from.0 / 8) as i8;
        let mover = self.to_move;
        let mut k: u8 = 0;
        while k < 8
            invariant
                k <= 8,
                from.wf(),
                fa == file_of(from.idx()),
                ra == rank_of(from.idx()),
                mover == self@.to_move,
                self@.cells[from.idx()].spec_color() == Some(self@.to_move),
                self@.cells[from.idx()].spec_piece_type() == (if knight {
                    PieceType::Knight
                } else {
                    PieceType::King
                }),
                moves@.no_duplicates(),
                forall|m: ChessMove| #[trigger] old(moves)@.contains(m) ==> m.from != from,
                forall|m: ChessMove|
                    #[trigger] moves@.contains(m) <==> (old(moves)@.contains(m) || (m.from == from
                        && self@.piece_move(m) && (if knight {
                        jump_index(file_of(m.to.idx()) - fa, rank_of(m.to.idx()) - ra)
                    } else {
                        step_index(file_of(m.to.idx()) - fa, rank_of(m.to.idx()) - ra)
                    }) < k)),
            decreases 8 - k,
        {
            let d = if knight {
                jump_offset(k)
            } else {
                step_offset(k)
            };
            let f: i8 = fa + d.0;
            let r: i8 = ra + d.1;
            if 0 <= f && f < 8 && 0 <= r && r < 8 {
                let to: u8 = (r * 8 + f) as u8;
                proof {
                    lemma_square_of(f as int, r as int);
                    lemma_coordinates(from.idx());
                }
                if !self.squares[to as usize].has_color(mover) {
                    let cand = ChessMove::new(from, Square(to));
                    assert(self@.piece_move(cand));
                    append_move(moves, cand);
                }
            }
            proof {
                assert forall|m: ChessMove|
                    m.from == from && self@.piece_move(m) && (if knight {
                        jump_index(file_of(m.to.idx()) - fa, rank_of(m.to.idx()) - ra)
                    } else {
                        step_index(file_of(m.to.idx()) - fa, rank_of(m.to.idx()) - ra)
                    }) == k implies m == ChessMove::new(from, Square((r * 8 + f) as u8)) && 0 <= f
                    < 8 && 0 <= r < 8 by {
                    lemma_coordinates(m.to.idx());
                    lemma_coordinates(from.idx());
                }
            }
            k += 1;
        }
        proof {
            lemma_coordinates(from.idx());
        }
    }

    /// Adds the moves of the bishop, rook or queen on `from` along one ray:
    /// to each empty square up to the first piece, and onto that piece if it
    /// is an enemy.
    fn gen_ray(&self, from: Square, sf: i8, sr: i8, moves: &mut Vec<ChessMove>)
        requires
            from.wf(),
            -1 <= sf <= 1,
            -1 <= sr <= 1,
            sf != 0 || sr != 0,
            self@.cells[from.idx()].spec_color() == Some(self@.to_move),
            match self@.cells[from.idx()].spec_piece_type() {
                PieceType::Queen => true,
                PieceType::Rook => sf == 0 || sr == 0,
                PieceType::Bishop => sf != 0 && sr != 0,
                _ => false,
            },
            old(moves)@.no_duplicates(),
            forall|m: ChessMove|
                #[trigger] old(moves)@.contains(m) ==> m.from != from || !ray_from(
                    from.idx(),
                    sf as int,
                    sr as int,
                    m.to.idx(),
                ),
        ensures
            final(moves)@.no_duplicates(),
            forall|m: ChessMove|
                #[trigger] final(moves)@.contains(m) <==> (old(moves)@.contains(m) || (m.from
                    == from && self@.piece_move(m) && ray_from(
                    from.idx(),
                    sf as int,
                    sr as int,
                    m.to.idx(),
                ))),
    {
        let fa: i8 = (from.0 % 8) as i8;
        let ra: i8 = (from.0 / 8) as i8;
        let mover = self.to_move;
        let mut f: i8 = fa + sf;
        let mut r: i8 = ra + sr;
        let mut open = true;
        proof {
            lemma_coordinates(from.idx());
            assert forall|x: int|
                on_board(x) && between_points(
                    fa as int,
                    ra as int,
                    f as int,
                    r as int,
                    file_of(x),
                    rank_of(x),
                ) implies #[trigger] self@.cells[x] == Piece::Empty by {
                lemma_ray_start(
                    fa as int,
                    ra as int,
                    sf as int,
                    sr as int,
                    file_of(x),
                    rank_of(x),
                );
            }
            assert forall|m: ChessMove| #[trigger]
                moves@.contains(m) <==> (old(moves)@.contains(m) || (m.from == from
                    && self@.piece_move(m) && ray_from(
                    from.idx(),
                    sf as int,
                    sr as int,
                    m.to.idx(),
                ) && between_points(
                    fa as int,
                    ra as int,
                    f as int,
                    r as int,
                    file_of(m.to.idx()),
                    rank_of(m.to.idx()),
                ))) by {
                lemma_ray_start(
                    fa as int,
                    ra as int,
                    sf as int,
                    sr as int,
                    file_of(m.to.idx()),
                    rank_of(m.to.idx()),
                );
            }
        }
        while open && 0 <= f && f < 8 && 0 <= r && r < 8
            invariant
                from.wf(),
                fa == file_of(from.idx()),
                ra == rank_of(from.idx()),
                0 <= fa < 8,
                0 <= ra < 8,
                -1 <= f <= 8,
                -1 <= r <= 8,
                -1 <= sf <= 1,
                -1 <= sr <= 1,
                mover == self@.to_move,
                self@.cells[from.idx()].spec_color() == Some(self@.to_move),
                match self@.cells[from.idx()].spec_piece_type() {
                    PieceType::Queen => true,
                    PieceType::Rook => sf == 0 || sr == 0,
                    PieceType::Bishop => sf != 0 && sr != 0,
                    _ => false,
                },
                moves@.no_duplicates(),
                forall|m: ChessMove|
                    #[trigger] old(moves)@.contains(m) ==> m.from != from || !ray_from(
                        from.idx(),
                        sf as int,
                        sr as int,
                        m.to.idx(),
                    ),
                open ==> on_ray(fa as int, ra as int, sf as int, sr as int, f as int, r as int),
                open ==> clear_towards(self@.cells, from.idx(), f as int, r as int),
                open ==> forall|m: ChessMove|
                    #[trigger] moves@.contains(m) <==> (old(moves)@.contains(m) || (m.from == from
                        && self@.piece_move(m) && ray_from(
                        from.idx(),
                        sf as int,
                        sr as int,
                        m.to.idx(),
                    ) && between_points(
                        fa as int,
                        ra as int,
                        f as int,
                        r as int,
                        file_of(m.to.idx()),
                        rank_of(m.to.idx()),
                    ))),
                !open ==> forall|m: ChessMove|
                    #[trigger] moves@.contains(m) <==> (old(moves)@.contains(m) || (m.from == from
                        && self@.piece_move(m) && ray_from(
                        from.idx(),
                        sf as int,
                        sr as int,
                        m.to.idx(),
                    ))),
            decreases (if open { 1int } else { 0int }), dist_to_edge(f as int, r as int, sf as int, sr as int),
        {
            let to: u8 = (r * 8 + f) as u8;
            let target = self.squares[to as usize];
            let cand = ChessMove::new(from, Square(to));
            let ghost before = moves@;
            proof {
                lemma_square_of(f as int, r as int);
                assert forall|m: ChessMove|
                    m.from == from && self@.piece_move(m) && ray_from(
                        from.idx(),
                        sf as int,
                        sr as int,
                        m.to.idx(),
                    ) implies (between_points(
                    fa as int,
                    ra as int,
                    f as int,
                    r as int,
                    file_of(m.to.idx()),
                    rank_of(m.to.idx()),
                ) || m == cand || between_points(
                    fa as int,
                    ra as int,
                    file_of(m.to.idx()),
                    rank_of(m.to.idx()),
                    f as int,
                    r as int,
                )) by {
                    lemma_coordinates(m.to.idx());
                    lemma_ray_order(
                        fa as int,
                        ra as int,
                        sf as int,
                        sr as int,
                        f as int,
                        r as int,
                        file_of(m.to.idx()),
                        rank_of(m.to.idx()),
                    );
                }
                assert(self@.piece_move(cand) <==> !(target.spec_color() == Some(mover))) by {
                    assert(crate::geometry::path_clear(self@.cells, from.idx(), to as int));
                }
            }
            if !target.has_color(mover) {
                append_move(moves, cand);
            }
            if target.is_empty() {
                proof {
                    assert forall|x: int|
                        on_board(x) && between_points(
                            fa as int,
                            ra as int,
                            f + sf,
                            r + sr,
                            file_of(x),
                            rank_of(x),
                        ) implies #[trigger] self@.cells[x] == Piece::Empty by {
                        lemma_coordinates(x);
                        lemma_ray_step(
                            fa as int,
                            ra as int,
                            sf as int,
                            sr as int,
                            f as int,
                            r as int,
                            file_of(x),
                            rank_of(x),
                        );
                    }
                    assert forall|m: ChessMove| #[trigger]
                        moves@.contains(m) <==> (old(moves)@.contains(m) || (m.from == from
                            && self@.piece_move(m) && ray_from(
                            from.idx(),
                            sf as int,
                            sr as int,
                            m.to.idx(),
                        ) && between_points(
                            fa as int,
                            ra as int,
                            f + sf,
                            r + sr,
                            file_of(m.to.idx()),
                            rank_of(m.to.idx()),
                        ))) by {
                        if m.to.wf() {
                            lemma_coordinates(m.to.idx());
                        }
                        lemma_ray_step(
                            fa as int,
                            ra as int,
                            sf as int,
                            sr as int,
                            f as int,
                            r as int,
                            file_of(m.to.idx()),
                            rank_of(m.to.idx()),
                        );
                    }
                    lemma_ray_step(
                        fa as int,
                        ra as int,
                        sf as int,
                        sr as int,
                        f as int,
                        r as int,
                        0,
                        0,
                    );
                }
                f = f + sf;
                r = r + sr;
            } else {
                proof {
                    assert forall|m: ChessMove| #[trigger]
                        moves@.contains(m) <==> (old(moves)@.contains(m) || (m.from == from
                            && self@.piece_move(m) && ray_from(
                            from.idx(),
                            sf as int,
                            sr as int,
                            m.to.idx(),
                        ))) by {
                        if m.from == from && self@.piece_move(m) && ray_from(
                            from.idx(),
                            sf as int,
                            sr as int,
                            m.to.idx(),
                        ) && between_points(
                            fa as int,
                            ra as int,
                            file_of(m.to.idx()),
                            rank_of(m.to.idx()),
                            f as int,
                            r as int,
                        ) {
                            // The occupied square lies on the way: the path is not clear.
                            assert(crate::geometry::between(from.idx(), m.to.idx(), to as int));
                            assert(self@.cells[to as int] != Piece::Empty);
                            assert(false);
                        }
                    }
                }
                open = false;
            }
        }
        proof {
            if open {
                assert forall|m: ChessMove| #[trigger]
                    moves@.contains(m) <==> (old(moves)@.contains(m) || (m.from == from
                        && self@.piece_move(m) && ray_from(
                        from.idx(),
                        sf as int,
                        sr as int,
                        m.to.idx(),
                    ))) by {
                    if m.to.wf() {
                        lemma_coordinates(m.to.idx());
                    }
                    if m.from == from && m.to.wf() && ray_from(
                        from.idx(),
                        sf as int,
                        sr as int,
                        m.to.idx(),
                    ) {
                        lemma_ray_order(
                            fa as int,
                            ra as int,
                            sf as int,
                            sr as int,
                            f as int,
                            r as int,
                            file_of(m.to.idx()),
                            rank_of(m.to.idx()),
                        );
                    }
                }
            }
        }
    }

    /// Adds the moves of the bishop, rook or queen on `from`: along each
    /// of the directions in which the piece moves.
    fn gen_slider(&self, from: Square, moves: &mut Vec<ChessMove>)
        requires
            from.wf(),
            self@.cells[from.idx()].spec_color() == Some(self@.to_move),
            self@.cells[from.idx()].spec_piece_type() == PieceType::Bishop
                || self@.cells[from.idx()].spec_piece_type() == PieceType::Rook
                || self@.cells[from.idx()].spec_piece_type() == PieceType::Queen,
            old(moves)@.no_duplicates(),
            forall|m: ChessMove| #[trigger] old(moves)@.contains(m) ==> m.from != from,
        ensures
            final(moves)@.no_duplicates(),
            forall|m: ChessMove|
                #[trigger] final(moves)@.contains(m) <==> (old(moves)@.contains(m) || (m.from
                    == from && self@.piece_move(m))),
    {
        let kind = self.squares[from.0 as usize].piece_type();
        let mut d: u8 = 0;
        while d < 8
            invariant
                d <= 8,
                from.wf(),
                kind == self@.cells[from.idx()].spec_piece_type(),
                self@.cells[from.idx()].spec_color() == Some(self@.to_move),
                kind == PieceType::Bishop || kind == PieceType::Rook || kind == PieceType::Queen,
                moves@.no_duplicates(),
                forall|m: ChessMove| #[trigger] old(moves)@.contains(m) ==> m.from != from,
                forall|m: ChessMove|
                    #[trigger] moves@.contains(m) <==> (old(moves)@.contains(m) || (m.from == from
                        && self@.piece_move(m) && direction_index(from.idx(), m.to.idx()) < d)),
            decreases 8 - d,
        {
            let s = step_offset(d);
            let straight = s.0 == 0 || s.1 == 0;
            if kind == PieceType::Queen || (kind == PieceType::Rook && straight) || (kind
                == PieceType::Bishop && !straight) {
                self.gen_ray(from, s.0, s.1, moves);
            }
            proof {
                assert forall|m: ChessMove| m.from == from && self@.piece_move(m) implies (ray_from(
                    from.idx(),
                    s.0 as int,
                    s.1 as int,
                    m.to.idx(),
                ) <==> direction_index(from.idx(), m.to.idx()) == d) by {
                    lemma_coordinates(from.idx());
                    lemma_coordinates(m.to.idx());
                }
            }
            d += 1;
        }
        proof {
            assert forall|m: ChessMove|
                m.from == from && self@.piece_move(m) implies direction_index(
                from.idx(),
                m.to.idx(),
            ) < 8 by {
                lemma_coordinates(from.idx());
                lemma_coordinates(m.to.idx());
            }
        }
    }

    /// Adds the moves of the pawn on `from`: its advance, its double
    /// advance from the starting rank, its two captures and its
    /// en-passant capture, each as far as the position allows it; a move to
    /// the last rank is added once for each of the four promotion pieces.
    fn gen_pawn(&self, from: Square, moves: &mut Vec<ChessMove>)
        requires
            from.wf(),
            self@.cells[from.idx()].spec_color() == Some(self@.to_move),
            self@.cells[from.idx()].spec_piece_type() == PieceType::Pawn,
            old(moves)@.no_duplicates(),
            forall|m: ChessMove| #[trigger] old(moves)@.contains(m) ==> m.from != from,
        ensures
            final(moves)@.no_duplicates(),
            forall|m: ChessMove|
                #[trigger] final(moves)@.contains(m) <==> (old(moves)@.contains(m) || (m.from
                    == from && self@.pseudo_legal(m))),
    {
        let fa: i8 = (from.0 % 8) as i8;
        let ra: i8 = (from.0 / 8) as i8;
        let mover = self.to_move;
        let enemy = mover.opposite();
        let white = mover == Color::White;
        let fwd: i8 = if white { -1 } else { 1 };
        let start: i8 = if white { 6 } else { 1 };
        let last: i8 = if white { 0 } else { 7 };
        let r1: i8 = ra + fwd;
        proof {
            lemma_coordinates(from.idx());
            assert forall|m: ChessMove| m.from == from && self@.pseudo_legal(m) implies rank_of(
                m.to.idx(),
            ) == r1 || m.tag == MoveTag::DoublePawnPush by {
                lemma_coordinates(m.to.idx());
            }
        }
        if 0 <= r1 && r1 < 8 {
            let promote = r1 == last;
            let ahead: u8 = (r1 * 8 + fa) as u8;
            proof {
                lemma_square_of(fa as int, r1 as int);
            }
            if self.squares[ahead as usize].is_empty() {
                append_pawn_move(moves, from, Square(ahead), promote);
                if ra == start {
                    let two: u8 = ((ra + 2 * fwd) * 8 + fa) as u8;
                    proof {
                        lemma_square_of(fa as int, ra + 2 * fwd);
                    }
                    if self.squares[two as usize].is_empty() {
                        append_move(
                            moves,
                            ChessMove::new_tagged(from, Square(two), MoveTag::DoublePawnPush),
                        );
                    }
                }
            }
            let ghost pushes = moves@;
            proof {
                assert forall|m: ChessMove| #[trigger]
                    pushes.contains(m) <==> (old(moves)@.contains(m) || (m.from == from
                        && self@.pseudo_legal(m) && file_of(m.to.idx()) == fa)) by {
                    if m.to.wf() {
                        lemma_coordinates(m.to.idx());
                    }
                }
            }
            let mut side: i8 = -1;
            while side <= 1
                invariant
                    side == -1 || side == 1 || side == 3,
                    from.wf(),
                    fa == file_of(from.idx()),
                    ra == rank_of(from.idx()),
                    0 <= fa < 8,
                    0 <= ra < 8,
                    0 <= r1 < 8,
                    r1 == ra + fwd,
                    fwd == forward(self@.to_move),
                    promote == (r1 == home_rank(self@.to_move.other())),
                    mover == self@.to_move,
                    enemy == mover.other(),
                    self@.cells[from.idx()].spec_color() == Some(self@.to_move),
                    self@.cells[from.idx()].spec_piece_type() == PieceType::Pawn,
                    moves@.no_duplicates(),
                    forall|m: ChessMove| #[trigger] old(moves)@.contains(m) ==> m.from != from,
                    forall|m: ChessMove|
                        #[trigger] moves@.contains(m) <==> (old(moves)@.contains(m) || (m.from
                            == from && self@.pseudo_legal(m) && (file_of(m.to.idx()) == fa
                            || file_of(m.to.idx()) - fa < side))),
                decreases 3 - side,
            {
                let f1: i8 = fa + side;
                if 0 <= f1 && f1 < 8 {
                    let to: u8 = (r1 * 8 + f1) as u8;
                    proof {
                        lemma_square_of(f1 as int, r1 as int);
                    }
                    if self.squares[to as usize].has_color(enemy) {
                        append_pawn_move(moves, from, Square(to), promote);
                    }
                    let passing = match self.en_passant {
                        Some(t) => t.0 == to,
                        None => false,
                    };
                    if passing {
                        append_move(
                            moves,
                            ChessMove::new_tagged(from, Square(to), MoveTag::EnPassantCapture),
                        );
                    }
                }
                proof {
                    assert forall|m: ChessMove| #[trigger]
                        moves@.contains(m) <==> (old(moves)@.contains(m) || (m.from == from
                            && self@.pseudo_legal(m) && (file_of(m.to.idx()) == fa || file_of(
                            m.to.idx(),
                        ) - fa < side + 2))) by {
                        if m.to.wf() {
                            lemma_coordinates(m.to.idx());
                        }
                    }
                }
                side = side + 2;
            }
            proof {
                assert forall|m: ChessMove| m.from == from && self@.pseudo_legal(m) implies file_of(
                    m.to.idx(),
                ) - fa < 3 by {
                    lemma_coordinates(m.to.idx());
                }
            }
        }
    }

    /// Adds the castling moves of the king on `from` that the position
    /// allows.
    fn gen_castling(&self, from: Square, moves: &mut Vec<ChessMove>)
        requires
            from.wf(),
            old(moves)@.no_duplicates(),
            forall|m: ChessMove|
                #[trigger] old(moves)@.contains(m) ==> m.from != from || m.tag == MoveTag::Normal,
        ensures
            final(moves)@.no_duplicates(),
            forall|m: ChessMove|
                #[trigger] final(moves)@.contains(m) <==> (old(moves)@.contains(m) || (m.from
                    == from && m.wf() && self@.castle_move(m))),
    {
        let mover = self.to_move;
        let enemy = mover.opposite();
        let home: u8 = if mover == Color::White { E1 } else { E8 };
        if from.0 == home && !self.is_square_attacked(from, enemy) {
            if self.castling.king_side(mover) && self.squares[(home + 1) as usize].is_empty()
                && self.squares[(home + 2) as usize].is_empty() && !self.is_square_attacked(
                Square(home + 1),
                enemy,
            ) && !self.is_square_attacked(Square(home + 2), enemy) {
                append_move(
                    moves,
                    ChessMove::new_tagged(from, Square(home + 2), MoveTag::CastleKingSide),
                );
            }
            if self.castling.queen_side(mover) && self.squares[(home - 1) as usize].is_empty()
                && self.squares[(home - 2) as usize].is_empty() && self.squares[(home
                - 3) as usize].is_empty() && !self.is_square_attacked(Square(home - 1), enemy)
                && !self.is_square_attacked(Square(home - 2), enemy) {
                append_move(
                    moves,
                    ChessMove::new_tagged(from, Square(home - 2), MoveTag::CastleQueenSide),
                );
            }
        }
    }

    /// Lists the pseudo-legal moves of the side to move, each once: the
    /// squares are visited in the order of their indices, and for each piece
    /// of the side to move its moves are added.
    pub fn generate_pseudo_legal(&self) -> (moves: Vec<ChessMove>)
        ensures
            moves@.no_duplicates(),
            forall|m: ChessMove| #[trigger] moves@.contains(m) <==> self@.pseudo_legal(m),
    {
        let mut moves: Vec<ChessMove> = Vec::new();
        let mut i: u8 = 0;
        while i < 64
            invariant
                i <= 64,
                moves@.no_duplicates(),
                forall|m: ChessMove|
                    #[trigger] moves@.contains(m) <==> (self@.pseudo_legal(m) && m.from.0 < i),
            decreases 64 - i,
        {
            let p = self.squares[i as usize];
            let from = Square(i);
            if p.has_color(self.to_move) {
                match p.piece_type() {
                    PieceType::Pawn => {
                        self.gen_pawn(from, &mut moves);
                    },
                    PieceType::Knight => {
                        self.gen_steps(from, true, &mut moves);
                    },
                    PieceType::King => {
                        self.gen_steps(from, false, &mut moves);
                        self.gen_castling(from, &mut moves);
                    },
                    PieceType::Empty => {},
                    _ => {
                        self.gen_slider(from, &mut moves);
                    },
                }
            }
            proof {
                assert forall|m: ChessMove| #[trigger]
                    moves@.contains(m) <==> (self@.pseudo_legal(m) && m.from.0 < i + 1) by {
                    assert(m.from == from <==> m.from.0 == i);
                }
            }
            i += 1;
        }
        moves
    }

    /// Lists the legal moves of the side to move, each once: every
    /// pseudo-legal move is played on a copy of the position, kept if the
    /// mover's king is then not attacked, and taken back.
    pub fn legal_moves(&self) -> (moves: Vec<ChessMove>)
        requires
            self@.wf(),
        ensures
            moves@.no_duplicates(),
            forall|m: ChessMove| #[trigger] moves@.contains(m) <==> self@.legal(m),
    {
        let candidates = self.generate_pseudo_legal();
        let mover = self.to_move;
        let enemy = mover.opposite();
        let mut board = *self;
        let mut moves: Vec<ChessMove> = Vec::new();
        let mut i: usize = 0;
        while i < candidates.len()
            invariant
                i <= candidates.len(),
                board@ == self@,
                self@.wf(),
                mover == self@.to_move,
                enemy == mover.other(),
                candidates@.no_duplicates(),
                forall|m: ChessMove| #[trigger] candidates@.contains(m) <==> self@.pseudo_legal(m),
                moves@.no_duplicates(),
                forall|m: ChessMove|
                    #[trigger] moves@.contains(m) <==> (self@.legal(m) && candidates@.subrange(
                        0,
                        i as int,
                    ).contains(m)),
            decreases candidates.len() - i,
        {
            let m = candidates[i];
            proof {
                assert(candidates@.contains(m));
                lemma_mover_king_after(self@, m);
                lemma_round_trip(self@, m);
            }
            let rev = board.do_move(m);
            let k = board.king_square(mover);
            let safe = !board.is_square_attacked(k, enemy);
            board.reverse_move(rev);
            proof {
                let done = candidates@.subrange(0, i as int);
                assert(candidates@.subrange(0, i + 1) =~= done.push(m));
                lemma_push_move(done, m);
                if done.contains(m) {
                    let j = choose|j: int| 0 <= j < done.len() && done[j] == m;
                    assert(candidates@[j] == candidates@[i as int]);
                }
            }
            if safe {
                append_move(&mut moves, m);
            }
            i += 1;
        }
        proof {
            assert(candidates@.subrange(0, i as int) =~= candidates@);
        }
        moves
    }

    /// Appends the legal moves of the side to move to the list, each once.
    pub fn generate_moves(&self, moves: &mut Vec<ChessMove>)
        requires
            self@.wf(),
        ensures
            final(moves)@.len() >= old(moves)@.len(),
            final(moves)@.subrange(0, old(moves)@.len() as int) == old(moves)@,
            final(moves)@.subrange(
                old(moves)@.len() as int,
                final(moves)@.len() as int,
            ).no_duplicates(),
            forall|m: ChessMove|
                #[trigger] final(moves)@.subrange(
                    old(moves)@.len() as int,
                    final(moves)@.len() as int,
                ).contains(m) <==> self@.legal(m),
    {
        let mut found = self.legal_moves();
        let ghost listed = found@;
        moves.append(&mut found);
        proof {
            assert(moves@.subrange(0, old(moves)@.len() as int) =~= old(moves)@);
            assert(moves@.subrange(old(moves)@.len() as int, moves@.len() as int) =~= listed);
        }
    }

    /// Tells whether a move is legal in the position.
    pub fn move_is_legal(&self, m: ChessMove) -> (r: bool)
        requires
            self@.wf(),
        ensures
            r == self@.legal(m),
    {
        let moves = self.legal_moves();
        let mut i: usize = 0;
        while i < moves.len()
            invariant
                i <= moves.len(),
                forall|x: ChessMove| #[trigger] moves@.contains(x) <==> self@.legal(x),
                forall|j: int| 0 <= j < i ==> moves@[j] != m,
            decreases moves.len() - i,
        {
            if moves[i].same(m) {
                proof {
                    assert(moves@[i as int] == m);
                    assert(moves@.contains(m));
                }
                return true;
            }
            i += 1;
        }
        proof {
            if moves@.contains(m) {
                let j = choose|j: int| 0 <= j < moves@.len() && moves@[j] == m;
                assert(moves@[j] != m);
            }
        }
        false
    }

    /// Tells whether the side to move is in check.
    pub fn in_check(&self) -> (r: bool)
        requires
            one_king(self@.cells, self@.to_move),
        ensures
            r == self@.in_check(),
    {
        let k = self.king_square(self.to_move);
        self.is_square_attacked(k, self.to_move.opposite())
    }
}

/// Adds a pawn's move between two squares: once without promotion, or once
/// for each of the four promotion pieces.
fn append_pawn_move(moves: &mut Vec<ChessMove>, from: Square, to: Square, promote: bool)
    requires
        old(moves)@.no_duplicates(),
        forall|m: ChessMove|
            #[trigger] old(moves)@.contains(m) ==> !(m.from == from && m.to == to && m.tag
                == MoveTag::Normal),
    ensures
        final(moves)@.no_duplicates(),
        forall|m: ChessMove|
            #[trigger] final(moves)@.contains(m) <==> (old(moves)@.contains(m) || (m.from == from
                && m.to == to && m.tag == MoveTag::Normal && (if promote {
                m.promotion is Some && m.promotion->Some_0.is_promotion_kind()
            } else {
                m.promotion is None
            }))),
{
    if promote {
        append_move(moves, ChessMove::new_promotion(from, to, PieceType::Knight));
        append_move(moves, ChessMove::new_promotion(from, to, PieceType::Bishop));
        append_move(moves, ChessMove::new_promotion(from, to, PieceType::Rook));
        append_move(moves, ChessMove::new_promotion(from, to, PieceType::Queen));
    } else {
        append_move(moves, ChessMove::new(from, to));
    }
}

/// How many steps in the direction `(sf, sr)` lead from the point `(f, r)`
/// off the board, counted generously.
pub open spec fn dist_to_edge(f: int, r: int, sf: int, sr: int) -> int {
    (if sf > 0 {
        8 - f
    } else if sf < 0 {
        f + 1
    } else {
        0
    }) + (if sr > 0 {
        8 - r
    } else if sr < 0 {
        r + 1
    } else {
        0
    })
}

} // verus!
