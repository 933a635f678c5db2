use vstd::prelude::*;

use crate::components::PieceColor;

verus! {

/// The line that tells the players whose move it is.
pub fn turn_text(turn: PieceColor) -> (r: &'static str)
    ensures
        turn == PieceColor::White ==> r@ == "White To Play"@,
        turn == PieceColor::Black ==> r@ == "Black To Play"@,
{
    match turn {
        PieceColor::White => "White To Play",
        PieceColor::Black => "Black To Play",
    }
}

} // verus!
