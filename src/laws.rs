use vstd::prelude::*;
use vstd::seq_lib::to_multiset_contains;

use crate::components::{Piece, PieceColor, PieceKind, Square};
use crate::rules::{
    attacked, castle_squares, castling_ok, exempt_from_safety, geometrically_valid, geometry_ok,
    in_check, legal_move, line_length, magnitude, moved_rook_at, occupied, occupied_by, path_clear,
    pawn_direction, rook_at, rook_home, stands_at, step_toward, CastleSide, CASTLE_NESTING,
};

verus! {

/// Rooks, bishops and queens: the pieces that slide along lines.
pub open spec fn is_sliding(kind: PieceKind) -> bool {
    kind == PieceKind::Rook || kind == PieceKind::Bishop || kind == PieceKind::Queen
}

/// The lines along which a sliding piece of `kind` moves.
pub open spec fn sliding_shape(kind: PieceKind, start: (u8, u8), end: (u8, u8)) -> bool {
    let dx = end.0 - start.0;
    let dy = end.1 - start.1;
    let straight = dx == 0 || dy == 0;
    let diagonal = magnitude(dx) == magnitude(dy);
    match kind {
        PieceKind::Rook => straight,
        PieceKind::Bishop => diagonal,
        _ => straight || diagonal,
    }
}

/// The knight's jump: two squares one way and one the other.
pub open spec fn knight_shape(start: (u8, u8), end: (u8, u8)) -> bool {
    let adx = magnitude(end.0 - start.0);
    let ady = magnitude(end.1 - start.1);
    (adx == 1 && ady == 2) || (adx == 2 && ady == 1)
}

/// The side a king's two-square move along its rank castles toward.
pub open spec fn castle_side_of(start: (u8, u8), end: (u8, u8)) -> CastleSide {
    if end.0 > start.0 {
        CastleSide::KingSide
    } else {
        CastleSide::QueenSide
    }
}

/// A move onto a square held by a piece of the mover's own colour is never
/// valid, whatever the kind of piece and whatever else is on the board.
pub proof fn lemma_own_color_target_is_illegal(
    piece: Piece,
    start: (u8, u8),
    end: (u8, u8),
    board: Seq<(Piece, Square)>,
)
    requires
        occupied_by(board, end.0 as int, end.1 as int, piece.color),
    ensures
        !geometrically_valid(piece, start, end, board),
        !legal_move(piece, start, end, board),
{
}

/// Staying on the same square is never a move.
pub proof fn lemma_null_move_is_illegal(piece: Piece, sq: (u8, u8), board: Seq<(Piece, Square)>)
    ensures
        !geometrically_valid(piece, sq, sq, board),
        !legal_move(piece, sq, sq, board),
{
}

/// A rook, bishop or queen moves along its lines only when no piece stands
/// strictly between start and end; on a clear line it may go, unless its
/// target holds a piece of its own colour.
pub proof fn lemma_sliding_moves(piece: Piece, start: (u8, u8), end: (u8, u8), board: Seq<(Piece, Square)>)
    requires
        is_sliding(piece.kind),
    ensures
        geometrically_valid(piece, start, end, board) <==> (start != end && !occupied_by(
            board,
            end.0 as int,
            end.1 as int,
            piece.color,
        ) && sliding_shape(piece.kind, start, end) && path_clear(start, end, board)),
        forall|k: int|
            0 < k < line_length(start, end) && #[trigger] occupied(
                board,
                step_toward(start.0 as int, end.0 as int, k),
                step_toward(start.1 as int, end.1 as int, k),
            ) ==> !legal_move(piece, start, end, board),
{
}

/// A knight's move depends only on its shape and on whether its target holds
/// a piece of its own colour: pieces in between never matter.
pub proof fn lemma_knight_jumps(piece: Piece, start: (u8, u8), end: (u8, u8), board: Seq<(Piece, Square)>)
    requires
        piece.kind == PieceKind::Knight,
    ensures
        geometrically_valid(piece, start, end, board) <==> (start != end && !occupied_by(
            board,
            end.0 as int,
            end.1 as int,
            piece.color,
        ) && knight_shape(start, end)),
{
}

/// The white pawn on the e-file may advance two squares from its start
/// exactly when both squares ahead of it are empty; if either is occupied the
/// move is illegal.
pub proof fn lemma_white_pawn_double_step(pawn: Piece, board: Seq<(Piece, Square)>)
    requires
        pawn.kind == PieceKind::Pawn,
        pawn.color == PieceColor::White,
    ensures
        geometrically_valid(pawn, (4, 1), (4, 3), board) <==> (!occupied(board, 4, 2) && !occupied(board, 4, 3)),
        occupied(board, 4, 2) || occupied(board, 4, 3) ==> !legal_move(pawn, (4, 1), (4, 3), board),
{
}

/// A pawn's diagonal step forward is never a move onto an empty square or onto
/// a piece of its own colour; onto a piece of the other colour it is valid.
pub proof fn lemma_pawn_diagonal(pawn: Piece, start: (u8, u8), end: (u8, u8), board: Seq<(Piece, Square)>)
    requires
        pawn.kind == PieceKind::Pawn,
        magnitude(end.0 - start.0) == 1,
        end.1 - start.1 == pawn_direction(pawn.color),
    ensures
        !occupied(board, end.0 as int, end.1 as int) ==> !legal_move(pawn, start, end, board),
        occupied_by(board, end.0 as int, end.1 as int, pawn.color) ==> !legal_move(pawn, start, end, board),
        occupied(board, end.0 as int, end.1 as int) && !occupied_by(
            board,
            end.0 as int,
            end.1 as int,
            pawn.color,
        ) ==> geometrically_valid(pawn, start, end, board),
{
}

/// A king's two-square move along its rank is a castle, and each of these
/// makes it illegal on its own: the king has moved; the rook of its colour on
/// that side's start square has moved; a square between king and rook is
/// occupied; the king starts on, crosses or lands on a square that an enemy
/// piece attacks (as castling measures it, one castling level further down).
pub proof fn lemma_castling_rejections(king: Piece, start: (u8, u8), end: (u8, u8), board: Seq<(Piece, Square)>)
    requires
        king.kind == PieceKind::King,
        end.1 == start.1,
        end.0 - start.0 == 2 || start.0 - end.0 == 2,
    ensures
        king.has_moved ==> !legal_move(king, start, end, board),
        moved_rook_at(board, rook_home(castle_side_of(start, end), king.color), king.color) ==> !legal_move(
            king,
            start,
            end,
            board,
        ),
        forall|i: int|
            1 <= i < 4 && (#[trigger] castle_squares(castle_side_of(start, end), king.color)[i] matches Some(
                s,
            ) && occupied(board, s.0 as int, s.1 as int)) ==> !legal_move(king, start, end, board),
        forall|i: int|
            0 <= i < 4 && (#[trigger] castle_squares(castle_side_of(start, end), king.color)[i] matches Some(
                s,
            ) && !exempt_from_safety(s) && attacked(s, king.color, board, (CASTLE_NESTING - 1) as nat))
                ==> !legal_move(king, start, end, board),
{
}

/// Two boards that list the same entries, in whatever order and number.
pub open spec fn same_entries(b1: Seq<(Piece, Square)>, b2: Seq<(Piece, Square)>) -> bool {
    forall|e: (Piece, Square)| b1.contains(e) <==> b2.contains(e)
}

/// Each occupancy question has one answer on boards with the same entries.
proof fn lemma_occupancy_transfers(b1: Seq<(Piece, Square)>, b2: Seq<(Piece, Square)>)
    requires
        same_entries(b1, b2),
    ensures
        forall|x: int, y: int| occupied(b1, x, y) ==> occupied(b2, x, y),
        forall|x: int, y: int, c: PieceColor| occupied_by(b1, x, y, c) ==> occupied_by(b2, x, y, c),
        forall|sq: (u8, u8), c: PieceColor| moved_rook_at(b1, sq, c) ==> moved_rook_at(b2, sq, c),
        forall|sq: (u8, u8), c: PieceColor| rook_at(b1, sq, c) ==> rook_at(b2, sq, c),
{
    // Every entry of `b1` stands somewhere in `b2`.
    assert forall|i: int| 0 <= i < b1.len() implies exists|j: int| 0 <= j < b2.len() && b2[j] == #[trigger] b1[i] by {
        assert(b1.contains(b1[i]));
    }
    assert forall|x: int, y: int| occupied(b1, x, y) implies occupied(b2, x, y) by {
        let i = choose|i: int| 0 <= i < b1.len() && #[trigger] stands_at(b1[i], x, y);
        let j = choose|j: int| 0 <= j < b2.len() && b2[j] == b1[i];
        assert(stands_at(b2[j], x, y));
    }
    assert forall|x: int, y: int, c: PieceColor| occupied_by(b1, x, y, c) implies occupied_by(b2, x, y, c) by {
        let i = choose|i: int| 0 <= i < b1.len() && #[trigger] stands_at(b1[i], x, y) && b1[i].0.color == c;
        let j = choose|j: int| 0 <= j < b2.len() && b2[j] == b1[i];
        assert(stands_at(b2[j], x, y));
    }
    assert forall|sq: (u8, u8), c: PieceColor| moved_rook_at(b1, sq, c) implies moved_rook_at(b2, sq, c) by {
        let i = choose|i: int|
            0 <= i < b1.len() && #[trigger] stands_at(b1[i], sq.0 as int, sq.1 as int)
                && b1[i].0.kind == PieceKind::Rook && b1[i].0.color == c && b1[i].0.has_moved;
        let j = choose|j: int| 0 <= j < b2.len() && b2[j] == b1[i];
        assert(stands_at(b2[j], sq.0 as int, sq.1 as int));
    }
    assert forall|sq: (u8, u8), c: PieceColor| rook_at(b1, sq, c) implies rook_at(b2, sq, c) by {
        let i = choose|i: int|
            0 <= i < b1.len() && #[trigger] stands_at(b1[i], sq.0 as int, sq.1 as int)
                && b1[i].0.kind == PieceKind::Rook && b1[i].0.color == c;
        let j = choose|j: int| 0 <= j < b2.len() && b2[j] == b1[i];
        assert(stands_at(b2[j], sq.0 as int, sq.1 as int));
    }
}

proof fn lemma_geometry_transfers(
    piece: Piece,
    start: (u8, u8),
    end: (u8, u8),
    b1: Seq<(Piece, Square)>,
    b2: Seq<(Piece, Square)>,
    depth: nat,
)
    requires
        same_entries(b1, b2),
    ensures
        geometry_ok(piece, start, end, b1, depth) == geometry_ok(piece, start, end, b2, depth),
    decreases depth, 2int,
{
    lemma_occupancy_transfers(b1, b2);
    lemma_occupancy_transfers(b2, b1);
    assert forall|x: int, y: int| #[trigger] occupied(b1, x, y) == #[trigger] occupied(b2, x, y) by {}
    assert(path_clear(start, end, b1) == path_clear(start, end, b2));
    if piece.kind == PieceKind::King {
        lemma_castling_transfers(piece, CastleSide::KingSide, b1, b2, depth);
        lemma_castling_transfers(piece, CastleSide::QueenSide, b1, b2, depth);
    }
}

proof fn lemma_castling_transfers(
    king: Piece,
    side: CastleSide,
    b1: Seq<(Piece, Square)>,
    b2: Seq<(Piece, Square)>,
    depth: nat,
)
    requires
        same_entries(b1, b2),
    ensures
        castling_ok(king, side, b1, depth) == castling_ok(king, side, b2, depth),
    decreases depth, 1int,
{
    lemma_occupancy_transfers(b1, b2);
    lemma_occupancy_transfers(b2, b1);
    if depth > 0 {
        let path = castle_squares(side, king.color);
        assert forall|i: int| 0 <= i < 4 && #[trigger] path[i] is Some implies attacked(
            path[i]->0,
            king.color,
            b1,
            (depth - 1) as nat,
        ) == attacked(path[i]->0, king.color, b2, (depth - 1) as nat) by {
            lemma_attacked_transfers(path[i]->0, king.color, b1, b2, (depth - 1) as nat);
        }
    }
}

proof fn lemma_attacked_transfers(
    sq: (u8, u8),
    color: PieceColor,
    b1: Seq<(Piece, Square)>,
    b2: Seq<(Piece, Square)>,
    depth: nat,
)
    requires
        same_entries(b1, b2),
    ensures
        attacked(sq, color, b1, depth) == attacked(sq, color, b2, depth),
    decreases depth, 3int,
{
    if attacked(sq, color, b1, depth) {
        let i = choose|i: int|
            0 <= i < b1.len() && (#[trigger] b1[i]).0.color != color && geometry_ok(
                b1[i].0,
                (b1[i].1.x, b1[i].1.y),
                sq,
                b1,
                depth,
            );
        assert(b1.contains(b1[i]));
        let j = choose|j: int| 0 <= j < b2.len() && b2[j] == b1[i];
        lemma_geometry_transfers(b1[i].0, (b1[i].1.x, b1[i].1.y), sq, b1, b2, depth);
        assert(b2[j].0.color != color);
    }
    if attacked(sq, color, b2, depth) {
        let j = choose|j: int|
            0 <= j < b2.len() && (#[trigger] b2[j]).0.color != color && geometry_ok(
                b2[j].0,
                (b2[j].1.x, b2[j].1.y),
                sq,
                b2,
                depth,
            );
        assert(b2.contains(b2[j]));
        let i = choose|i: int| 0 <= i < b1.len() && b1[i] == b2[j];
        lemma_geometry_transfers(b2[j].0, (b2[j].1.x, b2[j].1.y), sq, b1, b2, depth);
        assert(b1[i].0.color != color);
    }
}

/// Whether a square is in check does not depend on the order in which the
/// board lists its pieces.
pub proof fn lemma_check_ignores_order(
    sq: (u8, u8),
    color: PieceColor,
    b1: Seq<(Piece, Square)>,
    b2: Seq<(Piece, Square)>,
)
    requires
        b1.to_multiset() == b2.to_multiset(),
    ensures
        in_check(sq, color, b1) == in_check(sq, color, b2),
{
    assert forall|e: (Piece, Square)| b1.contains(e) <==> b2.contains(e) by {
        to_multiset_contains(b1, e);
        to_multiset_contains(b2, e);
    }
    lemma_attacked_transfers(sq, color, b1, b2, CASTLE_NESTING as nat);
}

} // verus!
