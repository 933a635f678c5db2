use vstd::prelude::*;

use crate::components::PieceColor;

verus! {

/// The state of a game between moves.
pub struct GameState {
    /// The side to move.
    pub turn: PieceColor,
    /// The square a pawn skipped over on the last move, if any.
    pub en_passant_target: Option<(u8, u8)>,
}

impl Default for GameState {
    /// A new game: White to move.
    fn default() -> (r: GameState)
        ensures
            r.turn == PieceColor::White,
            r.en_passant_target is None,
    {
        GameState { turn: PieceColor::White, en_passant_target: None }
    }
}

impl GameState {
    /// Hands the move to the other side.
    pub fn pass_turn(&mut self)
        ensures
            final(self).turn != old(self).turn,
            final(self).en_passant_target == old(self).en_passant_target,
    {
        self.turn = self.turn.opposite();
    }
}

} // verus!
