//! Whether a game is over, and who has won it.

use crate::chess_board::{ChessBoard, Position};
use crate::chess_move::ChessMove;
use crate::types::Color;
use board_game_traits::board::GameResult;
use vstd::prelude::*;

verus! {

/// `board_game_traits::board::GameResult`, an enum whose three variants
/// carry no data, made known with its variants.
#[verifier::external_type_specification]
pub struct ExGameResult(GameResult);

/// The result of a game that the given side has won.
pub open spec fn win_for(color: Color) -> GameResult {
    match color {
        Color::White => GameResult::WhiteWin,
        Color::Black => GameResult::BlackWin,
    }
}

/// The verdict on a position, given whether the side to move has no
/// legal move. With none, the game is lost if the side to move is in
/// check, and drawn if not. With some, the game is drawn once the
/// half-move clock has reached 100, and goes on before.
pub open spec fn verdict(s: Position, no_moves: bool) -> Option<GameResult> {
    if no_moves {
        if s.in_check() {
            Some(win_for(s.to_move.other()))
        } else {
            Some(GameResult::Draw)
        }
    } else if s.half_move_clock >= 100 {
        Some(GameResult::Draw)
    } else {
        None
    }
}

impl Position {
    /// The side to move has no legal move.
    pub open spec fn no_legal_move(self) -> bool {
        forall|m: ChessMove| !self.legal(m)
    }

    /// The result of the game in this position, `None` while it goes on.
    pub open spec fn outcome(self) -> Option<GameResult> {
        verdict(self, self.no_legal_move())
    }
}

/// A position in which the side to move has no legal move is the end of
/// the game.
pub proof fn lemma_no_move_ends_game(s: Position)
    requires
        s.no_legal_move(),
    ensures
        s.outcome() is Some,
        s.outcome() == Some(GameResult::Draw) || s.outcome() == Some(win_for(s.to_move.other())),
{
}

impl ChessBoard {
    /// The verdict on the position, given the number of legal moves of the
    /// side to move.
    pub fn evaluate(&self, legal_count: usize) -> (r: Option<GameResult>)
        requires
            self@.wf(),
        ensures
            r == verdict(self@, legal_count == 0),
    {
        if legal_count == 0 {
            if self.in_check() {
                match self.to_move {
                    Color::White => Some(GameResult::BlackWin),
                    Color::Black => Some(GameResult::WhiteWin),
                }
            } else {
                Some(GameResult::Draw)
            }
        } else if self.half_move_clock >= 100 {
            Some(GameResult::Draw)
        } else {
            None
        }
    }

    /// The result of the game in this position, `None` while it goes on:
    /// checkmate and stalemate by the legal moves and the check, a draw by
    /// the half-move clock.
    pub fn game_result(&self) -> (r: Option<GameResult>)
        requires
            self@.wf(),
        ensures
            r == self@.outcome(),
            self@.no_legal_move() ==> r is Some,
    {
        let moves = self.legal_moves();
        proof {
            if moves@.len() > 0 {
                assert(moves@.contains(moves@[0]));
            } else {
                assert forall|m: ChessMove| !self@.legal(m) by {
                    assert(!moves@.contains(m));
                }
            }
        }
        self.evaluate(moves.len())
    }
}

} // verus!
