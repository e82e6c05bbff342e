//! Counting the positions that can be reached in a given number of moves.
//!
//! The count is what move generators are checked against: for the starting
//! position its values are known.

use crate::chess_board::{ChessBoard, Position};
use crate::chess_move::{ChessMove, MoveTag};
use crate::laws::{lemma_apply_wf, lemma_round_trip};
use crate::types::{PieceType, Square};
use vstd::prelude::*;

verus! {

/// The number of codes that stand for moves: 64 sources, 64 destinations,
/// five choices of promotion and five kinds of move.
pub const MOVE_CODES: u32 = 102400;

/// The code of a choice of promotion, 5 for one that no move allows.
pub open spec fn promotion_code(p: Option<PieceType>) -> int {
    match p {
        None => 0,
        Some(PieceType::Knight) => 1,
        Some(PieceType::Bishop) => 2,
        Some(PieceType::Rook) => 3,
        Some(PieceType::Queen) => 4,
        Some(_) => 5,
    }
}

/// The choice of promotion with the given code.
pub open spec fn promotion_of_code(k: int) -> Option<PieceType> {
    if k == 1 {
        Some(PieceType::Knight)
    } else if k == 2 {
        Some(PieceType::Bishop)
    } else if k == 3 {
        Some(PieceType::Rook)
    } else if k == 4 {
        Some(PieceType::Queen)
    } else {
        None
    }
}

/// The code of a kind of move.
pub open spec fn tag_code(t: MoveTag) -> int {
    match t {
        MoveTag::Normal => 0,
        MoveTag::DoublePawnPush => 1,
        MoveTag::EnPassantCapture => 2,
        MoveTag::CastleKingSide => 3,
        MoveTag::CastleQueenSide => 4,
    }
}

/// The kind of move with the given code.
pub open spec fn tag_of_code(k: int) -> MoveTag {
    if k == 1 {
        MoveTag::DoublePawnPush
    } else if k == 2 {
        MoveTag::EnPassantCapture
    } else if k == 3 {
        MoveTag::CastleKingSide
    } else if k == 4 {
        MoveTag::CastleQueenSide
    } else {
        MoveTag::Normal
    }
}

/// The code of a move: its place in the list of all moves, ordered by
/// source, destination, promotion and kind.
pub open spec fn code_of_move(m: ChessMove) -> int {
    m.from.idx() * 1600 + m.to.idx() * 25 + promotion_code(m.promotion) * 5 + tag_code(m.tag)
}

/// The move with the given code.
pub open spec fn move_of_code(n: int) -> ChessMove {
    ChessMove {
        from: Square((n / 1600) as u8),
        to: Square(((n / 25) % 64) as u8),
        promotion: promotion_of_code((n / 5) % 5),
        tag: tag_of_code(n % 5),
    }
}

/// The number of positions at the end of the lines of play that start with
/// the given move and have `depth` moves in all.
pub open spec fn count_after(s: Position, depth: nat, m: ChessMove) -> nat
    decreases depth, 0nat,
{
    if depth == 0 {
        0
    } else {
        perft_count(s.apply(m), (depth - 1) as nat)
    }
}

/// The number of positions at the end of the lines of play of `depth` legal
/// moves from the position: one for depth 0, none from a position in
/// which the game is over, and else the sum over the legal moves of the
/// counts, one move less deep, from the positions that they lead to.
pub open spec fn perft_count(s: Position, depth: nat) -> nat
    decreases depth, MOVE_CODES as nat + 1,
{
    if depth == 0 {
        1
    } else if s.outcome() is Some {
        0
    } else {
        perft_sum(s, depth, MOVE_CODES as nat)
    }
}

/// The part of the sum of `perft_count` that the legal moves with a code
/// below `n` contribute.
pub open spec fn perft_sum(s: Position, depth: nat, n: nat) -> nat
    decreases depth, n,
{
    if n == 0 || depth == 0 {
        0
    } else {
        perft_sum(s, depth, (n - 1) as nat) + (if s.legal(move_of_code(n - 1)) {
            count_after(s, depth, move_of_code(n - 1))
        } else {
            0
        })
    }
}

/// The sum of the counts after the first `j` moves of a list.
pub open spec fn list_sum(s: Position, depth: nat, v: Seq<ChessMove>, j: int) -> nat
    decreases j,
{
    if j <= 0 {
        0
    } else {
        list_sum(s, depth, v, j - 1) + count_after(s, depth, v[j - 1])
    }
}

/// The sum of the counts after those of the first `j` moves of a list whose
/// code is below `n`.
pub open spec fn part_sum(s: Position, depth: nat, v: Seq<ChessMove>, j: int, n: int) -> nat
    decreases j,
{
    if j <= 0 {
        0
    } else {
        part_sum(s, depth, v, j - 1, n) + (if code_of_move(v[j - 1]) < n {
            count_after(s, depth, v[j - 1])
        } else {
            0
        })
    }
}

/// One of the first `j` moves of the list has the code `n`.
pub open spec fn has_code(v: Seq<ChessMove>, j: int, n: int) -> bool {
    exists|t: int| 0 <= t < j && code_of_move(#[trigger] v[t]) == n
}

/// The list holds the legal moves of the position, each once.
pub open spec fn lists_legal_moves(s: Position, v: Seq<ChessMove>) -> bool {
    &&& v.no_duplicates()
    &&& forall|m: ChessMove| #[trigger] v.contains(m) <==> s.legal(m)
}

/// A move on the board whose choice of promotion has a code below 5 has a
/// code of its own, from which it can be read back.
pub proof fn lemma_code_of_move(m: ChessMove)
    requires
        m.wf(),
        promotion_code(m.promotion) < 5,
    ensures
        0 <= code_of_move(m) < MOVE_CODES,
        move_of_code(code_of_move(m)) == m,
{
    let a = m.from.idx();
    let b = m.to.idx();
    let p = promotion_code(m.promotion);
    let t = tag_code(m.tag);
    let n = code_of_move(m);
    assert(n == a * 1600 + b * 25 + p * 5 + t);
    vstd::arithmetic::div_mod::lemma_fundamental_div_mod_converse(
        n,
        1600,
        a,
        b * 25 + p * 5 + t,
    );
    vstd::arithmetic::div_mod::lemma_fundamental_div_mod_converse(n, 25, a * 64 + b, p * 5 + t);
    vstd::arithmetic::div_mod::lemma_fundamental_div_mod_converse(a * 64 + b, 64, a, b);
    vstd::arithmetic::div_mod::lemma_fundamental_div_mod_converse(
        n,
        5,
        a * 320 + b * 5 + p,
        t,
    );
    vstd::arithmetic::div_mod::lemma_fundamental_div_mod_converse(
        a * 320 + b * 5 + p,
        5,
        a * 64 + b,
        p,
    );
    let back = move_of_code(n);
    assert(back.from.0 == m.from.0);
    assert(back.to.0 == m.to.0);
    assert(back.promotion == m.promotion);
    assert(back.tag == m.tag);
}

/// A pseudo-legal move stays on the board and promotes, if at all, to one
/// of the four promotion pieces.
pub proof fn lemma_shape_of_legal(s: Position, m: ChessMove)
    requires
        s.pseudo_legal(m),
    ensures
        m.wf(),
        promotion_code(m.promotion) < 5,
{
}

/// A legal move has a code, from which it can be read back.
pub proof fn lemma_code_of_legal(s: Position, m: ChessMove)
    requires
        s.pseudo_legal(m),
    ensures
        0 <= code_of_move(m) < MOVE_CODES,
        move_of_code(code_of_move(m)) == m,
{
    lemma_shape_of_legal(s, m);
    lemma_code_of_move(m);
}

/// A code stands for the move that it is read back as.
pub proof fn lemma_move_of_code(n: int)
    requires
        0 <= n < MOVE_CODES,
    ensures
        code_of_move(move_of_code(n)) == n,
{
    let fifths = n / 5;
    let pairs = n / 25;
    vstd::arithmetic::div_mod::lemma_div_denominator(n, 5, 5);
    vstd::arithmetic::div_mod::lemma_div_denominator(n, 25, 64);
    assert(fifths / 5 == pairs);
    assert(pairs / 64 == n / 1600);
    assert(n == 5 * fifths + n % 5);
    assert(fifths == 5 * pairs + fifths % 5);
    assert(pairs == 64 * (n / 1600) + pairs % 64);
    assert(0 <= n / 1600 < 64);
    let m = move_of_code(n);
    assert(m.from.idx() == n / 1600);
    assert(m.to.idx() == pairs % 64);
    assert(promotion_code(m.promotion) == fifths % 5);
    assert(tag_code(m.tag) == n % 5);
}

/// No move has a code below 0.
proof fn lemma_part_none(s: Position, depth: nat, v: Seq<ChessMove>, j: int)
    requires
        0 <= j <= v.len(),
    ensures
        part_sum(s, depth, v, j, 0) == 0,
    decreases j,
{
    if j > 0 {
        lemma_part_none(s, depth, v, j - 1);
    }
}

/// Where every move of the list has a code, the moves with a code make up
/// the whole list.
proof fn lemma_part_all(s: Position, depth: nat, v: Seq<ChessMove>, j: int)
    requires
        0 <= j <= v.len(),
        forall|t: int| 0 <= t < v.len() ==> code_of_move(#[trigger] v[t]) < MOVE_CODES,
    ensures
        part_sum(s, depth, v, j, MOVE_CODES as int) == list_sum(s, depth, v, j),
    decreases j,
{
    if j > 0 {
        lemma_part_all(s, depth, v, j - 1);
    }
}

/// Letting in one more code adds the count after the move with that code,
/// if the list holds it, and nothing else: the list holds no move twice.
proof fn lemma_part_step(s: Position, depth: nat, v: Seq<ChessMove>, j: int, n: int)
    requires
        0 <= j <= v.len(),
        v.no_duplicates(),
        forall|t: int| 0 <= t < v.len() ==> move_of_code(code_of_move(#[trigger] v[t])) == v[t],
    ensures
        part_sum(s, depth, v, j, n + 1) == part_sum(s, depth, v, j, n) + (if has_code(v, j, n) {
            count_after(s, depth, move_of_code(n))
        } else {
            0
        }),
    decreases j,
{
    if j > 0 {
        lemma_part_step(s, depth, v, j - 1, n);
        if code_of_move(v[j - 1]) == n {
            assert(has_code(v, j, n));
            if has_code(v, j - 1, n) {
                let t = choose|t: int| 0 <= t < j - 1 && code_of_move(#[trigger] v[t]) == n;
                assert(v[t] == v[j - 1]);
            }
        } else {
            if has_code(v, j, n) {
                let t = choose|t: int| 0 <= t < j && code_of_move(#[trigger] v[t]) == n;
                assert(t < j - 1);
                assert(has_code(v, j - 1, n));
            }
            if has_code(v, j - 1, n) {
                let t = choose|t: int| 0 <= t < j - 1 && code_of_move(#[trigger] v[t]) == n;
                assert(has_code(v, j, n));
            }
        }
    }
}

/// The moves of the list with a code below `n` contribute what the legal
/// moves with a code below `n` contribute.
proof fn lemma_sum_by_code(s: Position, depth: nat, v: Seq<ChessMove>, n: nat)
    requires
        depth > 0,
        n <= MOVE_CODES,
        lists_legal_moves(s, v),
    ensures
        part_sum(s, depth, v, v.len() as int, n as int) == perft_sum(s, depth, n),
    decreases n,
{
    if n == 0 {
        lemma_part_none(s, depth, v, v.len() as int);
    } else {
        let k = (n - 1) as nat;
        lemma_sum_by_code(s, depth, v, k);
        assert forall|t: int| 0 <= t < v.len() implies move_of_code(code_of_move(#[trigger] v[t]))
            == v[t] by {
            assert(v.contains(v[t]));
            lemma_code_of_legal(s, v[t]);
        }
        lemma_part_step(s, depth, v, v.len() as int, k as int);
        lemma_move_of_code(k as int);
        if has_code(v, v.len() as int, k as int) {
            let t = choose|t: int| 0 <= t < v.len() && code_of_move(#[trigger] v[t]) == k;
            assert(v.contains(v[t]));
            assert(v[t] == move_of_code(k as int));
        }
        if s.legal(move_of_code(k as int)) {
            assert(v.contains(move_of_code(k as int)));
            let t = choose|t: int| 0 <= t < v.len() && v[t] == move_of_code(k as int);
            assert(code_of_move(v[t]) == k);
            assert(has_code(v, v.len() as int, k as int));
        }
    }
}

/// Summed over a list that holds the legal moves of a position, each
/// once and in any order, the counts after the moves give the count of
/// the position.
pub proof fn lemma_list_sum(s: Position, depth: nat, v: Seq<ChessMove>)
    requires
        depth > 0,
        lists_legal_moves(s, v),
    ensures
        list_sum(s, depth, v, v.len() as int) == perft_sum(s, depth, MOVE_CODES as nat),
{
    lemma_sum_by_code(s, depth, v, MOVE_CODES as nat);
    assert forall|t: int| 0 <= t < v.len() implies code_of_move(#[trigger] v[t]) < MOVE_CODES by {
        assert(v.contains(v[t]));
        lemma_code_of_legal(s, v[t]);
    }
    lemma_part_all(s, depth, v, v.len() as int);
}

/// At depth 1 every move counts once.
proof fn lemma_list_sum_one(s: Position, v: Seq<ChessMove>, j: int)
    requires
        0 <= j <= v.len(),
    ensures
        list_sum(s, 1, v, j) == j,
    decreases j,
{
    if j > 0 {
        lemma_list_sum_one(s, v, j - 1);
    }
}

/// A count as a `u64`: itself where it fits, else the largest `u64`.
pub open spec fn capped(n: nat) -> u64 {
    if n <= u64::MAX {
        n as u64
    } else {
        u64::MAX
    }
}

/// Counts the positions at the end of the lines of play of `depth` legal
/// moves from the position, by playing every legal move, counting one move
/// less deep from there, and taking the move back. The position is left as
/// it was. A count that a `u64` cannot hold is given as the largest `u64`.
pub fn perft(board: &mut ChessBoard, depth: u16) -> (nodes: u64)
    requires
        old(board)@.wf(),
    ensures
        final(board)@ == old(board)@,
        nodes == capped(perft_count(old(board)@, depth as nat)),
    decreases depth,
{
    if depth == 0 {
        return 1;
    }
    let ghost s = board@;
    let ghost d = depth as nat;
    let moves = board.legal_moves();
    proof {
        if moves@.len() > 0 {
            assert(moves@.contains(moves@[0]));
        } else {
            assert forall|m: ChessMove| !s.legal(m) by {
                assert(!moves@.contains(m));
            }
        }
        lemma_list_sum(s, d, moves@);
    }
    if board.evaluate(moves.len()).is_some() {
        return 0;
    }
    if depth == 1 {
        proof {
            lemma_list_sum_one(s, moves@, moves@.len() as int);
        }
        return moves.len() as u64;
    }
    let mut total: u64 = 0;
    let mut i: usize = 0;
    while i < moves.len()
        invariant
            i <= moves.len(),
            depth > 1,
            d == depth as nat,
            board@ == s,
            s.wf(),
            lists_legal_moves(s, moves@),
            total == capped(list_sum(s, d, moves@, i as int)),
        decreases moves.len() - i,
    {
        let m = moves[i];
        proof {
            assert(moves@.contains(m));
            lemma_apply_wf(s, m);
            lemma_round_trip(s, m);
        }
        let rev = board.do_move(m);
        let sub = perft(board, depth - 1);
        board.reverse_move(rev);
        total = if sub > u64::MAX - total {
            u64::MAX
        } else {
            total + sub
        };
        i += 1;
    }
    total
}

/// Compares the counts of a position with known answers: the answer at the
/// place `d` of the list is held against the count at depth `d`. Tells
/// whether all of them agree, and leaves the position as it was.
pub fn perft_check_answers(board: &mut ChessBoard, answers: &[u64]) -> (agree: bool)
    requires
        old(board)@.wf(),
        answers@.len() <= 65536,
    ensures
        final(board)@ == old(board)@,
        agree == (forall|d: int|
            0 <= d < answers@.len() ==> #[trigger] answers@[d] == capped(
                perft_count(old(board)@, d as nat),
            )),
{
    let mut depth: usize = 0;
    while depth < answers.len()
        invariant
            depth <= answers@.len() <= 65536,
            board@ == old(board)@,
            board@.wf(),
            forall|d: int|
                0 <= d < depth ==> #[trigger] answers@[d] == capped(
                    perft_count(old(board)@, d as nat),
                ),
        decreases answers@.len() - depth,
    {
        let nodes = perft(board, depth as u16);
        if nodes != answers[depth] {
            return false;
        }
        depth += 1;
    }
    true
}

} // verus!
