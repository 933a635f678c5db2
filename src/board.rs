use vstd::prelude::*;

use crate::components::{Piece, PieceColor, PieceKind, Square};

verus! {

/// The piece that starts on file `x` of a back rank.
pub open spec fn back_rank_kind(x: int) -> PieceKind {
    if x == 0 || x == 7 {
        PieceKind::Rook
    } else if x == 1 || x == 6 {
        PieceKind::Knight
    } else if x == 2 || x == 5 {
        PieceKind::Bishop
    } else if x == 3 {
        PieceKind::Queen
    } else {
        PieceKind::King
    }
}

/// An unmoved piece of `color` and `kind` on `(x, y)`.
pub open spec fn home_entry(color: PieceColor, kind: PieceKind, x: u8, y: u8) -> (Piece, Square) {
    (Piece { color, kind, has_moved: false, start_pos: (x, y) }, Square { x, y })
}

/// The standard starting position, in the order in which it is laid out:
/// for each file, the white then the black back-rank piece; then for each
/// file, the white then the black pawn.
pub open spec fn standard_entry(i: int) -> (Piece, Square) {
    if i < 16 {
        let x = (i / 2) as u8;
        if i % 2 == 0 {
            home_entry(PieceColor::White, back_rank_kind(x as int), x, 0)
        } else {
            home_entry(PieceColor::Black, back_rank_kind(x as int), x, 7)
        }
    } else {
        let x = ((i - 16) / 2) as u8;
        if i % 2 == 0 {
            home_entry(PieceColor::White, PieceKind::Pawn, x, 1)
        } else {
            home_entry(PieceColor::Black, PieceKind::Pawn, x, 6)
        }
    }
}

/// The thirty-two pieces of the standard starting position.
pub fn initial_board() -> (r: Vec<(Piece, Square)>)
    ensures
        r@.len() == 32,
        forall|i: int| 0 <= i < 32 ==> #[trigger] r@[i] == standard_entry(i),
{
    let back_rank = [
        PieceKind::Rook,
        PieceKind::Knight,
        PieceKind::Bishop,
        PieceKind::Queen,
        PieceKind::King,
        PieceKind::Bishop,
        PieceKind::Knight,
        PieceKind::Rook,
    ];
    let mut board: Vec<(Piece, Square)> = Vec::new();
    let mut x: u8 = 0;
    while x < 8
        invariant
            x <= 8,
            board@.len() == 2 * x,
            forall|j: int| 0 <= j < 8 ==> #[trigger] back_rank[j] == back_rank_kind(j),
            forall|i: int| 0 <= i < board@.len() ==> #[trigger] board@[i] == standard_entry(i),
        decreases 8 - x,
    {
        let kind = back_rank[x as usize];
        board.push((Piece { color: PieceColor::White, kind, has_moved: false, start_pos: (x, 0) }, Square { x, y: 0 }));
        board.push((Piece { color: PieceColor::Black, kind, has_moved: false, start_pos: (x, 7) }, Square { x, y: 7 }));
        x += 1;
    }
    let mut x: u8 = 0;
    while x < 8
        invariant
            x <= 8,
            board@.len() == 16 + 2 * x,
            forall|i: int| 0 <= i < board@.len() ==> #[trigger] board@[i] == standard_entry(i),
        decreases 8 - x,
    {
        board.push((Piece { color: PieceColor::White, kind: PieceKind::Pawn, has_moved: false, start_pos: (x, 1) }, Square { x, y: 1 }));
        board.push((Piece { color: PieceColor::Black, kind: PieceKind::Pawn, has_moved: false, start_pos: (x, 6) }, Square { x, y: 6 }));
        x += 1;
    }
    board
}

/// Whether the square `(x, y)` is painted dark.
pub fn is_dark_square(x: u8, y: u8) -> (r: bool)
    ensures
        r == ((x + y) % 2 == 0),
{
    (x as u16 + y as u16) % 2 == 0
}

} // verus!
