use vstd::prelude::*;

use crate::components::{Piece, PieceColor, PieceKind, Square};
use crate::rules::{board_in_range, is_legal_move, legal_move, magnitude, stands_at};

verus! {

/// What a click on the board asks the game to do.  Indices refer to the
/// board snapshot the click was decided on.
#[derive(Clone, Copy, PartialEq, Eq, Debug)]
pub enum ClickAction {
    /// Nothing changes.
    Ignore,
    /// The piece at `index` becomes selected.
    Select { index: usize },
    /// The selected piece at `index` is no longer selected.
    Deselect { index: usize },
    /// The selection passes from the piece at `from` to the piece at `to`.
    SwitchSelection { from: usize, to: usize },
    /// The selected piece at `index` moves to the empty square `to`; when the
    /// move is a castle, `rook` names the rook to move and its new square.
    /// The mover is then deselected and the turn passes.
    Move { index: usize, to: (u8, u8), rook: Option<(usize, (u8, u8))> },
    /// The selected piece at `index` captures the piece at `target` and lands
    /// on `to`.  The mover is then deselected and the turn passes.
    Capture { index: usize, target: usize, to: (u8, u8) },
}

/// `i` is the first position of the board at which a piece stands on `(x, y)`.
pub open spec fn is_first_at(board: Seq<(Piece, Square)>, x: int, y: int, i: int) -> bool {
    &&& 0 <= i < board.len()
    &&& stands_at(board[i], x, y)
    &&& forall|j: int| 0 <= j < i ==> !#[trigger] stands_at(board[j], x, y)
}

/// The first position of the board at which a piece stands on `(x, y)`.
pub open spec fn first_at(board: Seq<(Piece, Square)>, x: int, y: int) -> Option<int> {
    if exists|i: int| is_first_at(board, x, y, i) {
        Some(choose|i: int| is_first_at(board, x, y, i))
    } else {
        None
    }
}

/// Where the rook goes when the king castles onto `to`: its start square and
/// its destination.
pub open spec fn castle_rook_route(to: (u8, u8)) -> Option<((u8, u8), (u8, u8))> {
    if to == (6u8, 0u8) {
        Some(((7u8, 0u8), (5u8, 0u8)))
    } else if to == (2u8, 0u8) {
        Some(((0u8, 0u8), (3u8, 0u8)))
    } else if to == (6u8, 7u8) {
        Some(((7u8, 7u8), (5u8, 7u8)))
    } else if to == (2u8, 7u8) {
        Some(((0u8, 7u8), (3u8, 7u8)))
    } else {
        None
    }
}

/// The rook that accompanies a king's two-file move from `from` to `to`: the
/// unmoved piece on the rook's start square, and where it goes.
pub open spec fn rook_companion(board: Seq<(Piece, Square)>, mover: Piece, from: (u8, u8), to: (u8, u8)) -> Option<
    (usize, (u8, u8)),
> {
    if mover.kind == PieceKind::King && magnitude(to.0 - from.0) == 2 {
        match castle_rook_route(to) {
            Some(route) => match first_at(board, route.0.0 as int, route.0.1 as int) {
                Some(j) => if !board[j].0.has_moved {
                    Some((j as usize, route.1))
                } else {
                    None
                },
                None => None,
            },
            None => None,
        }
    } else {
        None
    }
}

/// What a click on `(x, y)` does, with `turn` to move and the piece at
/// `selected` (if it names a piece of the board) selected.
pub open spec fn click_outcome(
    board: Seq<(Piece, Square)>,
    selected: Option<usize>,
    x: u8,
    y: u8,
    turn: PieceColor,
) -> ClickAction {
    let sel = match selected {
        Some(i) => if i < board.len() {
            Some(i as int)
        } else {
            None
        },
        None => None,
    };
    if !(x < 8 && y < 8) {
        ClickAction::Ignore
    } else {
        match (sel, first_at(board, x as int, y as int)) {
            (None, Some(c)) => if board[c].0.color == turn {
                ClickAction::Select { index: c as usize }
            } else {
                ClickAction::Ignore
            },
            (Some(s), None) => {
                let mover = board[s].0;
                let from = (board[s].1.x, board[s].1.y);
                if mover.color != turn || !legal_move(mover, from, (x, y), board) {
                    ClickAction::Ignore
                } else {
                    ClickAction::Move { index: s as usize, to: (x, y), rook: rook_companion(board, mover, from, (x, y)) }
                }
            },
            (Some(s), Some(c)) => {
                let mover = board[s].0;
                let from = (board[s].1.x, board[s].1.y);
                if mover.color != turn {
                    ClickAction::Ignore
                } else if s == c {
                    ClickAction::Deselect { index: s as usize }
                } else if board[c].0.color == mover.color {
                    ClickAction::SwitchSelection { from: s as usize, to: c as usize }
                } else if !legal_move(mover, from, (x, y), board) {
                    ClickAction::Ignore
                } else {
                    ClickAction::Capture { index: s as usize, target: c as usize, to: (x, y) }
                }
            },
            (None, None) => ClickAction::Ignore,
        }
    }
}

/// The first position of the board at which a piece stands on `(x, y)`.
fn first_index_at(board: &[(Piece, Square)], x: u8, y: u8) -> (r: Option<usize>)
    ensures
        r matches Some(i) ==> first_at(board@, x as int, y as int) == Some(i as int),
        r is None ==> first_at(board@, x as int, y as int) is None,
{
    let mut i: usize = 0;
    while i < board.len()
        invariant
            i <= board@.len(),
            forall|j: int| 0 <= j < i ==> !#[trigger] stands_at(board@[j], x as int, y as int),
        decreases board.len() - i,
    {
        if board[i].1.x == x && board[i].1.y == y {
            assert(is_first_at(board@, x as int, y as int, i as int));
            let ghost c = choose|c: int| is_first_at(board@, x as int, y as int, c);
            assert(c == i) by {
                if c < i {
                    assert(stands_at(board@[c], x as int, y as int));
                } else if c > i {
                    assert(!stands_at(board@[i as int], x as int, y as int));
                }
            }
            return Some(i);
        }
        i += 1;
    }
    assert forall|c: int| !is_first_at(board@, x as int, y as int, c) by {
        if 0 <= c < board@.len() {
            assert(!stands_at(board@[c], x as int, y as int));
        }
    }
    None
}

/// The rook that accompanies a king's two-file move from `from` to `to`.
fn find_rook_companion(board: &[(Piece, Square)], mover: &Piece, from: (u8, u8), to: (u8, u8)) -> (r: Option<
    (usize, (u8, u8)),
>)
    ensures
        r == rook_companion(board@, *mover, from, to),
{
    if mover.kind != PieceKind::King {
        return None;
    }
    let dx: i16 = to.0 as i16 - from.0 as i16;
    if dx != 2 && dx != -2 {
        return None;
    }
    let route: Option<((u8, u8), (u8, u8))> = if to.0 == 6 && to.1 == 0 {
        Some(((7, 0), (5, 0)))
    } else if to.0 == 2 && to.1 == 0 {
        Some(((0, 0), (3, 0)))
    } else if to.0 == 6 && to.1 == 7 {
        Some(((7, 7), (5, 7)))
    } else if to.0 == 2 && to.1 == 7 {
        Some(((0, 7), (3, 7)))
    } else {
        None
    };
    assert(route == castle_rook_route(to));
    match route {
        Some((rook_from, rook_to)) => match first_index_at(board, rook_from.0, rook_from.1) {
            Some(j) => if !board[j].0.has_moved {
                Some((j, rook_to))
            } else {
                None
            },
            None => None,
        },
        None => None,
    }
}

/// Decides what a click on `(x, y)` does, with `turn` to move and the piece
/// at `selected` selected: select a piece of the side to move, deselect it,
/// pass the selection to another piece of the same side, or make a legal
/// move or capture (with the rook's part of a castle).
pub fn decide_click(
    board: &[(Piece, Square)],
    selected: Option<usize>,
    x: u8,
    y: u8,
    turn: PieceColor,
) -> (r: ClickAction)
    requires
        board_in_range(board@),
    ensures
        r == click_outcome(board@, selected, x, y, turn),
{
    if !(x < 8 && y < 8) {
        return ClickAction::Ignore;
    }
    let sel: Option<usize> = match selected {
        Some(i) => if i < board.len() {
            Some(i)
        } else {
            None
        },
        None => None,
    };
    let clicked = first_index_at(board, x, y);
    match (sel, clicked) {
        (None, Some(c)) => {
            if board[c].0.color == turn {
                ClickAction::Select { index: c }
            } else {
                ClickAction::Ignore
            }
        },
        (Some(s), None) => {
            let mover = board[s].0;
            let from = (board[s].1.x, board[s].1.y);
            assert(board_in_range(board@) ==> from.0 < 8 && from.1 < 8);
            if mover.color != turn || !is_legal_move(&mover, from, (x, y), board) {
                ClickAction::Ignore
            } else {
                let rook = find_rook_companion(board, &mover, from, (x, y));
                ClickAction::Move { index: s, to: (x, y), rook }
            }
        },
        (Some(s), Some(c)) => {
            let mover = board[s].0;
            let from = (board[s].1.x, board[s].1.y);
            assert(board_in_range(board@) ==> from.0 < 8 && from.1 < 8);
            if mover.color != turn {
                ClickAction::Ignore
            } else if s == c {
                ClickAction::Deselect { index: s }
            } else if board[c].0.color == mover.color {
                ClickAction::SwitchSelection { from: s, to: c }
            } else if !is_legal_move(&mover, from, (x, y), board) {
                ClickAction::Ignore
            } else {
                ClickAction::Capture { index: s, target: c, to: (x, y) }
            }
        },
        (None, None) => ClickAction::Ignore,
    }
}

} // verus!
