//! Reading a position from its description in Forsyth-Edwards notation.
//!
//! A description has six fields, separated by single spaces: the pieces
//! rank by rank from the eighth, the side to move, the castling rights, the
//! en-passant target, the half-move clock and the number of the move.

use crate::chess_board::{ChessBoard, Position};
use crate::chess_move::CastlingRights;
use crate::types::{Color, ParseError, ParseErrorKind, Piece, Square};
use pgn_traits::pgn;
use vstd::prelude::*;
use vstd::string::*;

verus! {

/// The place of the first space at or after the place `i`, or the length of
/// the text where there is none.
pub open spec fn next_space(text: Seq<char>, i: int) -> int
    decreases text.len() - i,
{
    if i < 0 || i >= text.len() {
        text.len() as int
    } else if text[i] == ' ' {
        i
    } else {
        next_space(text, i + 1)
    }
}

/// Where the field with the number `k` starts: the first field at the
/// start of the text, each other one behind the space that ends the field
/// before it.
pub open spec fn field_start(text: Seq<char>, k: nat) -> int
    decreases k,
{
    if k == 0 {
        0
    } else {
        next_space(text, field_start(text, (k - 1) as nat)) + 1
    }
}

/// Where the field with the number `k` ends: at the next space, or at the
/// end of the text.
pub open spec fn field_end(text: Seq<char>, k: nat) -> int {
    next_space(text, field_start(text, k))
}

/// The field with the number `k`.
pub open spec fn field(text: Seq<char>, k: nat) -> Seq<char> {
    text.subrange(field_start(text, k), field_end(text, k))
}

/// The text is made of six fields with one space between each two.
pub open spec fn has_six_fields(text: Seq<char>) -> bool {
    &&& field_end(text, 0) < text.len()
    &&& field_end(text, 1) < text.len()
    &&& field_end(text, 2) < text.len()
    &&& field_end(text, 3) < text.len()
    &&& field_end(text, 4) < text.len()
    &&& field_end(text, 5) == text.len()
}

/// What one more character of a piece placement adds to the squares that
/// were filled before it. A slash ends a rank of eight squares, and only a
/// slash does; a digit from 1 to 8 leaves that many squares of the rank
/// empty; a piece letter fills one square.
pub open spec fn place_char(cells: Seq<Piece>, after_slash: bool, c: char) -> Option<Seq<Piece>> {
    let rank_full = cells.len() % 8 == 0 && cells.len() > 0 && !after_slash;
    if c == '/' {
        if rank_full && cells.len() < 64 {
            Some(cells)
        } else {
            None
        }
    } else if rank_full {
        None
    } else if '1' <= c <= '8' {
        if cells.len() % 8 + (c as int - 48) <= 8 {
            Some(cells + Seq::new((c as int - 48) as nat, |i: int| Piece::Empty))
        } else {
            None
        }
    } else {
        match Piece::spec_from_letter(c) {
            Some(p) => if p != Piece::Empty {
                Some(cells.push(p))
            } else {
                None
            },
            None => None,
        }
    }
}

/// The squares that the first `n` characters of a piece placement fill, in
/// the order of the square indices.
pub open spec fn placed(text: Seq<char>, n: int) -> Option<Seq<Piece>>
    decreases n,
{
    if n <= 0 {
        Some(Seq::empty())
    } else {
        match placed(text, n - 1) {
            None => None,
            Some(cells) => place_char(cells, n >= 2 && text[n - 2] == '/', text[n - 1]),
        }
    }
}

/// The 64 squares that a piece placement describes.
pub open spec fn placement_of(text: Seq<char>) -> Option<Seq<Piece>> {
    match placed(text, text.len() as int) {
        None => None,
        Some(cells) => if cells.len() == 64 {
            Some(cells)
        } else {
            None
        },
    }
}

/// The side that the second field names.
pub open spec fn side_of(text: Seq<char>) -> Option<Color> {
    if text.len() == 1 && text[0] == 'w' {
        Some(Color::White)
    } else if text.len() == 1 && text[0] == 'b' {
        Some(Color::Black)
    } else {
        None
    }
}

/// The rights with one more right, named by its letter: `K` and `Q` for
/// white, `k` and `q` for black. A letter may come once.
pub open spec fn add_right(r: CastlingRights, c: char) -> Option<CastlingRights> {
    if c == 'K' && !r.white_king_side {
        Some(CastlingRights { white_king_side: true, ..r })
    } else if c == 'Q' && !r.white_queen_side {
        Some(CastlingRights { white_queen_side: true, ..r })
    } else if c == 'k' && !r.black_king_side {
        Some(CastlingRights { black_king_side: true, ..r })
    } else if c == 'q' && !r.black_queen_side {
        Some(CastlingRights { black_queen_side: true, ..r })
    } else {
        None
    }
}

/// The rights that the first `n` characters name.
pub open spec fn rights_of(text: Seq<char>, n: int) -> Option<CastlingRights>
    decreases n,
{
    if n <= 0 {
        Some(
            CastlingRights {
                white_king_side: false,
                white_queen_side: false,
                black_king_side: false,
                black_queen_side: false,
            },
        )
    } else {
        match rights_of(text, n - 1) {
            None => None,
            Some(r) => add_right(r, text[n - 1]),
        }
    }
}

/// The castling rights that the third field names: none for `-`, else
/// one for each of its letters.
pub open spec fn castling_of(text: Seq<char>) -> Option<CastlingRights> {
    if text.len() == 1 && text[0] == '-' {
        rights_of(text, 0)
    } else if text.len() == 0 {
        None
    } else {
        rights_of(text, text.len() as int)
    }
}

/// The en-passant target that the fourth field names: none for `-`, else
/// the square of that name.
pub open spec fn en_passant_of(text: Seq<char>) -> Option<Option<Square>> {
    if text.len() == 1 && text[0] == '-' {
        Some(None)
    } else if Square::valid_alg(text) {
        Some(Some(Square::spec_from_alg(text)))
    } else {
        None
    }
}

/// The text is made of decimal digits.
pub open spec fn all_digits(text: Seq<char>) -> bool {
    forall|i: int| 0 <= i < text.len() ==> '0' <= #[trigger] text[i] <= '9'
}

/// The number that the first `n` digits of the text write.
pub open spec fn digits_value(text: Seq<char>, n: int) -> nat
    decreases n,
{
    if n <= 0 {
        0
    } else {
        (digits_value(text, n - 1) * 10 + (text[n - 1] as int - 48)) as nat
    }
}

/// The counter that a field writes: one or more decimal digits whose number
/// a `u32` holds.
pub open spec fn counter_of(text: Seq<char>) -> Option<u32> {
    if text.len() > 0 && all_digits(text) && digits_value(text, text.len() as int) <= u32::MAX {
        Some(digits_value(text, text.len() as int) as u32)
    } else {
        None
    }
}

/// What is wrong with the form of a position description, if anything
/// is: the number of fields is looked at first, then the fields in their
/// order.
pub open spec fn fen_form_fault(text: Seq<char>) -> Option<ParseErrorKind> {
    if !has_six_fields(text) {
        Some(ParseErrorKind::FieldCount)
    } else if placement_of(field(text, 0)) is None {
        Some(ParseErrorKind::PiecePlacement)
    } else if side_of(field(text, 1)) is None {
        Some(ParseErrorKind::SideToMove)
    } else if castling_of(field(text, 2)) is None {
        Some(ParseErrorKind::CastlingRights)
    } else if en_passant_of(field(text, 3)) is None {
        Some(ParseErrorKind::EnPassantTarget)
    } else if counter_of(field(text, 4)) is None || counter_of(field(text, 5)) is None {
        Some(ParseErrorKind::MoveCounter)
    } else {
        None
    }
}

/// The position that a well-formed description describes.
pub open spec fn fen_position(text: Seq<char>) -> Position {
    Position {
        cells: placement_of(field(text, 0))->Some_0,
        to_move: side_of(field(text, 1))->Some_0,
        castling: castling_of(field(text, 2))->Some_0,
        en_passant: en_passant_of(field(text, 3))->Some_0,
        half_move_clock: counter_of(field(text, 4))->Some_0,
        full_move: counter_of(field(text, 5))->Some_0,
    }
}

/// What is wrong with a position description, if anything is: its form, or
/// else the position that it describes.
pub open spec fn fen_fault(text: Seq<char>) -> Option<ParseErrorKind> {
    if fen_form_fault(text) is Some {
        fen_form_fault(text)
    } else if !fen_position(text).wf() {
        Some(ParseErrorKind::IllegalPosition)
    } else {
        None
    }
}

/// Once a character has been refused, the placement is refused.
proof fn lemma_placed_refused(text: Seq<char>, n: int, m: int)
    requires
        placed(text, n) is None,
        n <= m,
    ensures
        placed(text, m) is None,
    decreases m - n,
{
    if n < m {
        lemma_placed_refused(text, n, m - 1);
    }
}

/// Once a letter has been refused, the rights are refused.
proof fn lemma_rights_refused(text: Seq<char>, n: int, m: int)
    requires
        rights_of(text, n) is None,
        n <= m,
    ensures
        rights_of(text, m) is None,
    decreases m - n,
{
    if n < m {
        lemma_rights_refused(text, n, m - 1);
    }
}

/// More digits do not write a smaller number.
proof fn lemma_digits_grow(text: Seq<char>, n: int, m: int)
    requires
        all_digits(text),
        0 <= n <= m <= text.len(),
    ensures
        digits_value(text, n) <= digits_value(text, m),
    decreases m - n,
{
    if n < m {
        lemma_digits_grow(text, n, m - 1);
        assert('0' <= text[m - 1] <= '9');
    }
}

/// The characters of a text, one by one.
fn chars_of(text: &str) -> (v: Vec<char>)
    ensures
        v@ == text@,
{
    let n = text.unicode_len();
    let mut v: Vec<char> = Vec::new();
    let mut i: usize = 0;
    while i < n
        invariant
            i <= n,
            n == text@.len(),
            v@ == text@.subrange(0, i as int),
        decreases n - i,
    {
        v.push(text.get_char(i));
        proof {
            assert(v@ =~= text@.subrange(0, i + 1));
        }
        i += 1;
    }
    proof {
        assert(v@ =~= text@);
    }
    v
}

/// Finds the first space at or after `start`.
fn find_space(text: &Vec<char>, start: usize) -> (r: usize)
    requires
        start <= text.len(),
    ensures
        r == next_space(text@, start as int),
        start <= r <= text.len(),
{
    let mut i = start;
    while i < text.len() && text[i] != ' '
        invariant
            start <= i <= text.len(),
            next_space(text@, start as int) == next_space(text@, i as int),
        decreases text.len() - i,
    {
        i += 1;
    }
    i
}

/// Reads the piece placement that stands between two places of the text.
fn parse_placement(text: &Vec<char>, lo: usize, hi: usize) -> (r: Option<[Piece; 64]>)
    requires
        lo <= hi <= text.len(),
    ensures
        r is Some <==> placement_of(text@.subrange(lo as int, hi as int)) is Some,
        r is Some ==> r->Some_0@ == placement_of(text@.subrange(lo as int, hi as int))->Some_0,
{
    let ghost part = text@.subrange(lo as int, hi as int);
    let mut squares = [Piece::Empty;64];
    let mut count: usize = 0;
    let mut after_slash = false;
    let mut i = lo;
    while i < hi
        invariant
            lo <= i <= hi <= text.len(),
            part == text@.subrange(lo as int, hi as int),
            count <= 64,
            placed(part, i - lo) == Some(squares@.subrange(0, count as int)),
            forall|j: int| count <= j < 64 ==> #[trigger] squares@[j] == Piece::Empty,
            after_slash == (i - lo >= 1 && part[i - lo - 1] == '/'),
            after_slash ==> count < 64,
        decreases hi - i,
    {
        let c = text[i];
        let ghost cells = squares@.subrange(0, count as int);
        let ghost n = i - lo + 1;
        proof {
            assert(part[n - 1] == c);
            assert(placed(part, n) == place_char(cells, after_slash, c));
        }
        let rank_full = count % 8 == 0 && count > 0 && !after_slash;
        if c == '/' {
            if !(rank_full && count < 64) {
                proof {
                    lemma_placed_refused(part, n, part.len() as int);
                }
                return None;
            }
        } else if rank_full {
            proof {
                lemma_placed_refused(part, n, part.len() as int);
            }
            return None;
        } else if '1' <= c && c <= '8' {
            let d: usize = (c as u8 - 48) as usize;
            if count % 8 + d > 8 {
                proof {
                    lemma_placed_refused(part, n, part.len() as int);
                }
                return None;
            }
            count = count + d;
            proof {
                assert(squares@.subrange(0, count as int) =~= cells + Seq::new(
                    d as nat,
                    |i: int| Piece::Empty,
                ));
            }
        } else {
            let p = match Piece::from_letter(c) {
                Some(p) => p,
                None => Piece::Empty,
            };
            if p.is_empty() {
                proof {
                    lemma_placed_refused(part, n, part.len() as int);
                }
                return None;
            }
            squares[count] = p;
            count = count + 1;
            proof {
                assert(squares@.subrange(0, count as int) =~= cells.push(p));
            }
        }
        after_slash = c == '/';
        i += 1;
    }
    if count == 64 {
        proof {
            assert(squares@.subrange(0, 64) =~= squares@);
        }
        Some(squares)
    } else {
        None
    }
}

/// Reads the side to move that stands between two places of the text.
fn parse_side(text: &Vec<char>, lo: usize, hi: usize) -> (r: Option<Color>)
    requires
        lo <= hi <= text.len(),
    ensures
        r == side_of(text@.subrange(lo as int, hi as int)),
{
    if hi - lo == 1 && text[lo] == 'w' {
        Some(Color::White)
    } else if hi - lo == 1 && text[lo] == 'b' {
        Some(Color::Black)
    } else {
        None
    }
}

/// Reads the castling rights that stand between two places of the text.
fn parse_castling(text: &Vec<char>, lo: usize, hi: usize) -> (r: Option<CastlingRights>)
    requires
        lo <= hi <= text.len(),
    ensures
        r == castling_of(text@.subrange(lo as int, hi as int)),
{
    let ghost part = text@.subrange(lo as int, hi as int);
    let mut rights = CastlingRights::none();
    if hi - lo == 1 && text[lo] == '-' {
        return Some(rights);
    }
    if hi == lo {
        return None;
    }
    proof {
        assert(part[0] == text@[lo as int]);
    }
    let mut i = lo;
    while i < hi
        invariant
            lo <= i <= hi <= text.len(),
            part == text@.subrange(lo as int, hi as int),
            part.len() > 0,
            !(part.len() == 1 && part[0] == '-'),
            rights_of(part, i - lo) == Some(rights),
        decreases hi - i,
    {
        let c = text[i];
        proof {
            assert(part[i - lo] == c);
            assert(rights_of(part, i - lo + 1) == add_right(rights, c));
        }
        if c == 'K' && !rights.white_king_side {
            rights.white_king_side = true;
        } else if c == 'Q' && !rights.white_queen_side {
            rights.white_queen_side = true;
        } else if c == 'k' && !rights.black_king_side {
            rights.black_king_side = true;
        } else if c == 'q' && !rights.black_queen_side {
            rights.black_queen_side = true;
        } else {
            proof {
                lemma_rights_refused(part, i - lo + 1, part.len() as int);
            }
            return None;
        }
        i += 1;
    }
    Some(rights)
}

/// Reads the en-passant target that stands between two places of the text.
fn parse_en_passant(text: &Vec<char>, lo: usize, hi: usize) -> (r: Option<Option<Square>>)
    requires
        lo <= hi <= text.len(),
    ensures
        r == en_passant_of(text@.subrange(lo as int, hi as int)),
{
    if hi - lo == 1 && text[lo] == '-' {
        Some(None)
    } else if hi - lo == 2 && 'a' <= text[lo] && text[lo] <= 'h' && '1' <= text[lo + 1] && text[lo
        + 1] <= '8' {
        let file: u8 = text[lo] as u8 - 97;
        let rank: u8 = 56 - text[lo + 1] as u8;
        Some(Some(Square(rank * 8 + file)))
    } else {
        None
    }
}

/// Reads the counter that stands between two places of the text.
fn parse_counter(text: &Vec<char>, lo: usize, hi: usize) -> (r: Option<u32>)
    requires
        lo <= hi <= text.len(),
    ensures
        r == counter_of(text@.subrange(lo as int, hi as int)),
{
    let ghost part = text@.subrange(lo as int, hi as int);
    if hi == lo {
        return None;
    }
    let mut value: u32 = 0;
    let mut i = lo;
    while i < hi
        invariant
            lo <= i <= hi <= text.len(),
            part == text@.subrange(lo as int, hi as int),
            value == digits_value(part, i - lo),
            forall|j: int| 0 <= j < i - lo ==> '0' <= #[trigger] part[j] <= '9',
        decreases hi - i,
    {
        let c = text[i];
        proof {
            assert(part[i - lo] == c);
        }
        if c < '0' || c > '9' {
            return None;
        }
        let next: u64 = value as u64 * 10 + (c as u8 - 48) as u64;
        if next > u32::MAX as u64 {
            proof {
                if all_digits(part) {
                    lemma_digits_grow(part, i - lo + 1, part.len() as int);
                }
            }
            return None;
        }
        value = next as u32;
        i += 1;
    }
    Some(value)
}

/// Reads a position from the characters of its description.
fn parse_fen_chars(text: &Vec<char>) -> (r: Result<ChessBoard, ParseErrorKind>)
    ensures
        r is Ok <==> fen_fault(text@) is None,
        r is Ok ==> r->Ok_0@ == fen_position(text@) && r->Ok_0@.wf(),
        r is Err ==> Some(r->Err_0) == fen_fault(text@),
{
    let n = text.len();
    proof {
        reveal_with_fuel(field_start, 6);
    }
    let e0 = find_space(text, 0);
    if e0 >= n {
        return Err(ParseErrorKind::FieldCount);
    }
    let e1 = find_space(text, e0 + 1);
    if e1 >= n {
        return Err(ParseErrorKind::FieldCount);
    }
    let e2 = find_space(text, e1 + 1);
    if e2 >= n {
        return Err(ParseErrorKind::FieldCount);
    }
    let e3 = find_space(text, e2 + 1);
    if e3 >= n {
        return Err(ParseErrorKind::FieldCount);
    }
    let e4 = find_space(text, e3 + 1);
    if e4 >= n {
        return Err(ParseErrorKind::FieldCount);
    }
    let e5 = find_space(text, e4 + 1);
    if e5 != n {
        return Err(ParseErrorKind::FieldCount);
    }
    let squares = match parse_placement(text, 0, e0) {
        Some(squares) => squares,
        None => {
            return Err(ParseErrorKind::PiecePlacement);
        },
    };
    let to_move = match parse_side(text, e0 + 1, e1) {
        Some(color) => color,
        None => {
            return Err(ParseErrorKind::SideToMove);
        },
    };
    let castling = match parse_castling(text, e1 + 1, e2) {
        Some(rights) => rights,
        None => {
            return Err(ParseErrorKind::CastlingRights);
        },
    };
    let en_passant = match parse_en_passant(text, e2 + 1, e3) {
        Some(target) => target,
        None => {
            return Err(ParseErrorKind::EnPassantTarget);
        },
    };
    let half_move_clock = match parse_counter(text, e3 + 1, e4) {
        Some(value) => value,
        None => {
            return Err(ParseErrorKind::MoveCounter);
        },
    };
    let full_move = match parse_counter(text, e4 + 1, e5) {
        Some(value) => value,
        None => {
            return Err(ParseErrorKind::MoveCounter);
        },
    };
    match ChessBoard::from_parts(squares, to_move, castling, en_passant, half_move_clock, full_move) {
        Ok(board) => Ok(board),
        Err(_) => Err(ParseErrorKind::IllegalPosition),
    }
}

impl ChessBoard {
    /// Reads a position from its description in Forsyth-Edwards notation.
    /// A text that is not such a description, or that describes a position
    /// that cannot come about in a game, is refused, and the error carries
    /// it.
    pub fn parse_fen(fen: &str) -> (r: Result<ChessBoard, ParseError>)
        ensures
            r is Ok <==> fen_fault(fen@) is None,
            r is Ok ==> r->Ok_0@ == fen_position(fen@) && r->Ok_0@.wf(),
            r is Err ==> Some(r->Err_0.kind) == fen_fault(fen@) && r->Err_0.text@ == fen@,
    {
        let text = chars_of(fen);
        match parse_fen_chars(&text) {
            Ok(board) => Ok(board),
            Err(kind) => Err(ParseError { kind, text: fen.to_owned() }),
        }
    }

    /// Reads a position from its description in Forsyth-Edwards notation, as
    /// `parse_fen` does, and reports a refused text as a `pgn::Error`.
    pub fn from_fen(fen: &str) -> (r: Result<ChessBoard, pgn::Error>)
        ensures
            r is Ok <==> fen_fault(fen@) is None,
            r is Ok ==> r->Ok_0@ == fen_position(fen@) && r->Ok_0@.wf(),
            r is Err ==> r->Err_0 == ParseError::pgn_error_of(fen_fault(fen@)->Some_0, fen@),
    {
        match Self::parse_fen(fen) {
            Ok(board) => Ok(board),
            Err(e) => Err(e.to_pgn_error()),
        }
    }
}

} // verus!
