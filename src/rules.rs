use vstd::prelude::*;

use crate::components::{Piece, PieceColor, PieceKind, Square};

verus! {

// ---------------------------------------------------------------------------
// Board model
// ---------------------------------------------------------------------------

/// Whether `(x, y)` is a square of the 8x8 board.
pub open spec fn on_board(x: int, y: int) -> bool {
    0 <= x < 8 && 0 <= y < 8
}

/// Every square named on the board lies in `0..8 x 0..8`.
pub open spec fn board_in_range(board: Seq<(Piece, Square)>) -> bool {
    forall|i: int| 0 <= i < board.len() ==> on_board(#[trigger] board[i].1.x as int, board[i].1.y as int)
}

/// Whether the board entry `e` stands on `(x, y)`.
pub open spec fn stands_at(e: (Piece, Square), x: int, y: int) -> bool {
    e.1.x == x && e.1.y == y
}

/// Whether some piece stands on `(x, y)`.
pub open spec fn occupied(board: Seq<(Piece, Square)>, x: int, y: int) -> bool {
    exists|i: int| 0 <= i < board.len() && #[trigger] stands_at(board[i], x, y)
}

/// Whether a piece of `color` stands on `(x, y)`.
pub open spec fn occupied_by(board: Seq<(Piece, Square)>, x: int, y: int, color: PieceColor) -> bool {
    exists|i: int| 0 <= i < board.len() && #[trigger] stands_at(board[i], x, y) && board[i].0.color == color
}

pub open spec fn magnitude(v: int) -> int {
    if v < 0 { -v } else { v }
}

/// The coordinate reached after `k` unit steps from `a` toward `b`.
pub open spec fn step_toward(a: int, b: int, k: int) -> int {
    if a < b { a + k } else if a > b { a - k } else { a }
}

/// The number of king steps between two squares on a common line.
pub open spec fn line_length(start: (u8, u8), end: (u8, u8)) -> int {
    let adx = magnitude(end.0 - start.0);
    let ady = magnitude(end.1 - start.1);
    if adx < ady { ady } else { adx }
}

/// `start` and `end` lie on a common rank, file or diagonal.
pub open spec fn on_common_line(start: (u8, u8), end: (u8, u8)) -> bool {
    start.0 == end.0 || start.1 == end.1 || magnitude(end.0 - start.0) == magnitude(end.1 - start.1)
}

/// No piece stands strictly between `start` and `end`.
pub open spec fn path_clear(start: (u8, u8), end: (u8, u8), board: Seq<(Piece, Square)>) -> bool {
    forall|k: int|
        0 < k < line_length(start, end) ==> !#[trigger] occupied(
            board,
            step_toward(start.0 as int, end.0 as int, k),
            step_toward(start.1 as int, end.1 as int, k),
        )
}

/// The rank direction in which pawns of `color` advance.
pub open spec fn pawn_direction(color: PieceColor) -> int {
    match color {
        PieceColor::White => 1,
        PieceColor::Black => -1,
    }
}

/// The rank on which pawns of `color` start.
pub open spec fn pawn_start_rank(color: PieceColor) -> int {
    match color {
        PieceColor::White => 1,
        PieceColor::Black => 6,
    }
}

/// The pawn rules: a push onto an empty square, a double push from the start
/// rank over two empty squares, or a diagonal step onto an occupied square.
pub open spec fn pawn_move_ok(
    color: PieceColor,
    start: (u8, u8),
    end: (u8, u8),
    board: Seq<(Piece, Square)>,
) -> bool {
    let dx = end.0 - start.0;
    let dy = end.1 - start.1;
    let dir = pawn_direction(color);
    if dx == 0 && dy == dir {
        !occupied(board, end.0 as int, end.1 as int)
    } else if dx == 0 && dy == 2 * dir && start.1 == pawn_start_rank(color) {
        !occupied(board, start.0 as int, start.1 + dir) && !occupied(board, end.0 as int, end.1 as int)
    } else if magnitude(dx) == 1 && dy == dir {
        occupied(board, end.0 as int, end.1 as int)
    } else {
        false
    }
}

// ---------------------------------------------------------------------------
// Executable leaves
// ---------------------------------------------------------------------------

/// Whether every square named on the board lies in `0..8 x 0..8`.
pub fn board_in_bounds(board: &[(Piece, Square)]) -> (r: bool)
    ensures
        r == board_in_range(board@),
{
    let mut i: usize = 0;
    while i < board.len()
        invariant
            i <= board@.len(),
            forall|j: int| 0 <= j < i ==> on_board(#[trigger] board@[j].1.x as int, board@[j].1.y as int),
        decreases board.len() - i,
    {
        if board[i].1.x >= 8 || board[i].1.y >= 8 {
            assert(!on_board(board@[i as int].1.x as int, board@[i as int].1.y as int));
            return false;
        }
        i += 1;
    }
    true
}

/// Whether some piece stands on `(x, y)`.
fn is_occupied(board: &[(Piece, Square)], x: u8, y: u8) -> (r: bool)
    ensures
        r == occupied(board@, x as int, y as int),
{
    let mut i: usize = 0;
    while i < board.len()
        invariant
            i <= board@.len(),
            forall|j: int| 0 <= j < i ==> !#[trigger] stands_at(board@[j], x as int, y as int),
        decreases board.len() - i,
    {
        if board[i].1.x == x && board[i].1.y == y {
            assert(stands_at(board@[i as int], x as int, y as int));
            return true;
        }
        i += 1;
    }
    false
}

/// Whether a piece of `color` stands on `(x, y)`.
fn is_occupied_by(board: &[(Piece, Square)], x: u8, y: u8, color: PieceColor) -> (r: bool)
    ensures
        r == occupied_by(board@, x as int, y as int, color),
{
    let mut i: usize = 0;
    while i < board.len()
        invariant
            i <= board@.len(),
            forall|j: int|
                0 <= j < i ==> !(#[trigger] stands_at(board@[j], x as int, y as int) && board@[j].0.color == color),
        decreases board.len() - i,
    {
        if board[i].1.x == x && board[i].1.y == y && board[i].0.color == color {
            assert(stands_at(board@[i as int], x as int, y as int));
            return true;
        }
        i += 1;
    }
    false
}

/// The coordinate `k` unit steps from `a` toward `b`.
fn step_from(a: u8, b: u8, k: u8) -> (r: u8)
    requires
        a < 8,
        b < 8,
        a != b ==> k <= magnitude(b - a),
    ensures
        r == step_toward(a as int, b as int, k as int),
{
    if a < b {
        a + k
    } else if a > b {
        a - k
    } else {
        a
    }
}

/// Returns true if no piece stands on a square strictly between `start` and
/// `end`, which lie on a common rank, file or diagonal.
pub fn is_path_clear(start: (u8, u8), end: (u8, u8), board: &[(Piece, Square)]) -> (r: bool)
    requires
        on_board(start.0 as int, start.1 as int),
        on_board(end.0 as int, end.1 as int),
        on_common_line(start, end),
    ensures
        r == path_clear(start, end, board@),
{
    let adx: u8 = if start.0 < end.0 { end.0 - start.0 } else { start.0 - end.0 };
    let ady: u8 = if start.1 < end.1 { end.1 - start.1 } else { start.1 - end.1 };
    let n: u8 = if adx < ady { ady } else { adx };
    assert(n == line_length(start, end));
    let mut k: u8 = 1;
    while k < n
        invariant
            1 <= k,
            n == line_length(start, end),
            on_board(start.0 as int, start.1 as int),
            on_board(end.0 as int, end.1 as int),
            on_common_line(start, end),
            forall|j: int|
                0 < j < k ==> !#[trigger] occupied(
                    board@,
                    step_toward(start.0 as int, end.0 as int, j),
                    step_toward(start.1 as int, end.1 as int, j),
                ),
        decreases n - k,
    {
        let x = step_from(start.0, end.0, k);
        let y = step_from(start.1, end.1, k);
        if is_occupied(board, x, y) {
            return false;
        }
        k += 1;
    }
    true
}

/// The pawn rules for a pawn of `color`.
fn is_valid_pawn_move(color: PieceColor, start: (u8, u8), end: (u8, u8), board: &[(Piece, Square)]) -> (r: bool)
    requires
        on_board(start.0 as int, start.1 as int),
        on_board(end.0 as int, end.1 as int),
    ensures
        r == pawn_move_ok(color, start, end, board@),
{
    let dx: i8 = (end.0 as i8) - (start.0 as i8);
    let dy: i8 = (end.1 as i8) - (start.1 as i8);
    let direction: i8 = match color {
        PieceColor::White => 1,
        PieceColor::Black => -1,
    };
    let target_square_has_piece = is_occupied(board, end.0, end.1);
    if dx == 0 && dy == direction {
        return !target_square_has_piece;
    }
    let start_rank: u8 = match color {
        PieceColor::White => 1,
        PieceColor::Black => 6,
    };
    if dx == 0 && dy == 2 * direction && start.1 == start_rank {
        let between: u8 = ((start.1 as i8) + direction) as u8;
        let blocked = is_occupied(board, start.0, between);
        return !blocked && !target_square_has_piece;
    }
    if (dx == 1 || dx == -1) && dy == direction {
        return target_square_has_piece;
    }
    false
}


// ---------------------------------------------------------------------------
// Geometry, castling and attack, as one mutually recursive family
// ---------------------------------------------------------------------------

/// How many castling evaluations may nest inside one query.
///
/// Whether a square is attacked may depend on an enemy king's two-square move,
/// whose castling evaluation asks whether other squares are attacked, and so on.
/// Castling evaluations along such a chain alternate colours, so a chain of five
/// repeats a (colour, side) pair on the same board and could never resolve;
/// four levels therefore decide every query that resolves at all.  At the
/// limit a castle is refused.
pub const CASTLE_NESTING: u8 = 4;

/// The two castling directions.
#[derive(Clone, Copy, PartialEq, Eq, Debug, Structural)]
pub enum CastleSide {
    KingSide,
    QueenSide,
}

/// The back rank of `color`.
pub open spec fn home_rank(color: PieceColor) -> u8 {
    match color {
        PieceColor::White => 0,
        PieceColor::Black => 7,
    }
}

/// The square on which the rook of `color` for `side` starts.
pub open spec fn rook_home(side: CastleSide, color: PieceColor) -> (u8, u8) {
    match side {
        CastleSide::KingSide => (7, home_rank(color)),
        CastleSide::QueenSide => (0, home_rank(color)),
    }
}

/// The squares from the king's start toward the rook that castling examines:
/// the king's start square first, then the squares beyond it up to the rook.
pub open spec fn castle_squares(side: CastleSide, color: PieceColor) -> Seq<Option<(u8, u8)>> {
    let r = home_rank(color);
    match side {
        CastleSide::KingSide => seq![Some((4u8, r)), Some((5u8, r)), Some((6u8, r)), None],
        CastleSide::QueenSide => seq![Some((4u8, r)), Some((3u8, r)), Some((2u8, r)), Some((1u8, r))],
    }
}

/// The squares that need not be safe for castling: the queen-side rook's path
/// square that the king never crosses.
pub open spec fn exempt_from_safety(s: (u8, u8)) -> bool {
    s == (1u8, 0u8) || s == (1u8, 7u8)
}

/// A rook of `color` that has moved stands on `sq`.
pub open spec fn moved_rook_at(board: Seq<(Piece, Square)>, sq: (u8, u8), color: PieceColor) -> bool {
    exists|i: int|
        0 <= i < board.len() && #[trigger] stands_at(board[i], sq.0 as int, sq.1 as int)
            && board[i].0.kind == PieceKind::Rook && board[i].0.color == color && board[i].0.has_moved
}

/// A rook of `color` stands on `sq`.
pub open spec fn rook_at(board: Seq<(Piece, Square)>, sq: (u8, u8), color: PieceColor) -> bool {
    exists|i: int|
        0 <= i < board.len() && #[trigger] stands_at(board[i], sq.0 as int, sq.1 as int)
            && board[i].0.kind == PieceKind::Rook && board[i].0.color == color
}

/// The shape rules of each kind, with the ban on landing on a piece of one's
/// own colour; a king's two-square move along its rank is a castle, decided by
/// `castling_ok` with `depth` castling evaluations left.
pub open spec fn geometry_ok(
    piece: Piece,
    start: (u8, u8),
    end: (u8, u8),
    board: Seq<(Piece, Square)>,
    depth: nat,
) -> bool
    decreases depth, 2int,
{
    let dx = end.0 - start.0;
    let dy = end.1 - start.1;
    let adx = magnitude(dx);
    let ady = magnitude(dy);
    if start == end {
        false
    } else if occupied_by(board, end.0 as int, end.1 as int, piece.color) {
        false
    } else {
        match piece.kind {
            PieceKind::Pawn => pawn_move_ok(piece.color, start, end, board),
            PieceKind::Rook => (dx == 0 || dy == 0) && path_clear(start, end, board),
            PieceKind::Knight => (adx == 1 && ady == 2) || (adx == 2 && ady == 1),
            PieceKind::Bishop => adx == ady && path_clear(start, end, board),
            PieceKind::Queen => ((dx == 0 || dy == 0) || adx == ady) && path_clear(start, end, board),
            PieceKind::King => if dx == 2 && dy == 0 {
                castling_ok(piece, CastleSide::KingSide, board, depth)
            } else if dx == -2 && dy == 0 {
                castling_ok(piece, CastleSide::QueenSide, board, depth)
            } else {
                adx <= 1 && ady <= 1
            },
        }
    }
}

/// The castling conditions for `king` toward `side`, with `depth` castling
/// evaluations left (none left: refused).
pub open spec fn castling_ok(king: Piece, side: CastleSide, board: Seq<(Piece, Square)>, depth: nat) -> bool
    decreases depth, 1int,
{
    let path = castle_squares(side, king.color);
    let rook = rook_home(side, king.color);
    if depth == 0 {
        false
    } else {
        &&& !king.has_moved
        &&& !moved_rook_at(board, rook, king.color)
        &&& forall|i: int|
            1 <= i < 4 ==> (#[trigger] path[i] matches Some(s) ==> !occupied(board, s.0 as int, s.1 as int))
        &&& forall|i: int|
            0 <= i < 4 ==> (#[trigger] path[i] matches Some(s) ==> (exempt_from_safety(s) || !attacked(
                s,
                king.color,
                board,
                (depth - 1) as nat,
            )))
        &&& rook_at(board, rook, king.color)
    }
}

/// Some piece not of `color` can reach `sq` by the shape rules.
pub open spec fn attacked(sq: (u8, u8), color: PieceColor, board: Seq<(Piece, Square)>, depth: nat) -> bool
    decreases depth, 3int,
{
    exists|i: int|
        0 <= i < board.len() && (#[trigger] board[i]).0.color != color && geometry_ok(
            board[i].0,
            (board[i].1.x, board[i].1.y),
            sq,
            board,
            depth,
        )
}

impl CastleSide {
    /// The square on which the rook of `color` for this side starts.
    pub fn get_rook_initial_pos(&self, color: PieceColor) -> (r: (u8, u8))
        ensures
            r == rook_home(*self, color),
    {
        let rank: u8 = match color {
            PieceColor::White => 0,
            PieceColor::Black => 7,
        };
        match self {
            CastleSide::KingSide => (7, rank),
            CastleSide::QueenSide => (0, rank),
        }
    }

    /// The king's start square, then the squares beyond it up to the rook.
    pub fn squares_to_check(&self, color: PieceColor) -> (r: [Option<(u8, u8)>; 4])
        ensures
            r@ == castle_squares(*self, color),
    {
        let rank: u8 = match color {
            PieceColor::White => 0,
            PieceColor::Black => 7,
        };
        let r = match self {
            CastleSide::KingSide => [Some((4, rank)), Some((5, rank)), Some((6, rank)), None],
            CastleSide::QueenSide => [Some((4, rank)), Some((3, rank)), Some((2, rank)), Some((1, rank))],
        };
        assert(r@ =~= castle_squares(*self, color));
        r
    }
}

/// Whether a rook of `color` that has moved stands on `sq`.
fn has_moved_rook_at(board: &[(Piece, Square)], sq: (u8, u8), color: PieceColor) -> (r: bool)
    ensures
        r == moved_rook_at(board@, sq, color),
{
    let mut i: usize = 0;
    while i < board.len()
        invariant
            i <= board@.len(),
            forall|j: int|
                0 <= j < i ==> !(#[trigger] stands_at(board@[j], sq.0 as int, sq.1 as int)
                    && board@[j].0.kind == PieceKind::Rook && board@[j].0.color == color
                    && board@[j].0.has_moved),
        decreases board.len() - i,
    {
        let (p, s) = board[i];
        if s.x == sq.0 && s.y == sq.1 && p.kind == PieceKind::Rook && p.color == color && p.has_moved {
            assert(stands_at(board@[i as int], sq.0 as int, sq.1 as int));
            return true;
        }
        i += 1;
    }
    false
}

/// Whether a rook of `color` stands on `sq`.
fn is_rook_at(board: &[(Piece, Square)], sq: (u8, u8), color: PieceColor) -> (r: bool)
    ensures
        r == rook_at(board@, sq, color),
{
    let mut i: usize = 0;
    while i < board.len()
        invariant
            i <= board@.len(),
            forall|j: int|
                0 <= j < i ==> !(#[trigger] stands_at(board@[j], sq.0 as int, sq.1 as int)
                    && board@[j].0.kind == PieceKind::Rook && board@[j].0.color == color),
        decreases board.len() - i,
    {
        let (p, s) = board[i];
        if s.x == sq.0 && s.y == sq.1 && p.kind == PieceKind::Rook && p.color == color {
            assert(stands_at(board@[i as int], sq.0 as int, sq.1 as int));
            return true;
        }
        i += 1;
    }
    false
}

/// `geometry_ok` with `depth` castling evaluations left.
fn geometric(piece: &Piece, start: (u8, u8), end: (u8, u8), board: &[(Piece, Square)], depth: u8) -> (r: bool)
    requires
        on_board(start.0 as int, start.1 as int),
        on_board(end.0 as int, end.1 as int),
        board_in_range(board@),
    ensures
        r == geometry_ok(*piece, start, end, board@, depth as nat),
    decreases depth, 2int,
{
    if start.0 == end.0 && start.1 == end.1 {
        return false;
    }
    if is_occupied_by(board, end.0, end.1, piece.color) {
        return false;
    }
    let dx: i8 = (end.0 as i8) - (start.0 as i8);
    let dy: i8 = (end.1 as i8) - (start.1 as i8);
    let abs_dx: i8 = if dx < 0 { -dx } else { dx };
    let abs_dy: i8 = if dy < 0 { -dy } else { dy };
    match piece.kind {
        PieceKind::Pawn => is_valid_pawn_move(piece.color, start, end, board),
        PieceKind::Rook => (dx == 0 || dy == 0) && is_path_clear(start, end, board),
        PieceKind::Knight => (abs_dx == 1 && abs_dy == 2) || (abs_dx == 2 && abs_dy == 1),
        PieceKind::Bishop => abs_dx == abs_dy && is_path_clear(start, end, board),
        PieceKind::Queen => ((dx == 0 || dy == 0) || abs_dx == abs_dy) && is_path_clear(start, end, board),
        PieceKind::King => {
            if dx == 2 && dy == 0 {
                castling(piece, CastleSide::KingSide, board, depth)
            } else if dx == -2 && dy == 0 {
                castling(piece, CastleSide::QueenSide, board, depth)
            } else {
                abs_dx <= 1 && abs_dy <= 1
            }
        },
    }
}

/// `castling_ok` with `depth` castling evaluations left.
fn castling(king: &Piece, side: CastleSide, board: &[(Piece, Square)], depth: u8) -> (r: bool)
    requires
        board_in_range(board@),
    ensures
        r == castling_ok(*king, side, board@, depth as nat),
    decreases depth, 1int,
{
    if depth == 0 {
        return false;
    }
    if king.has_moved {
        return false;
    }
    let rook = side.get_rook_initial_pos(king.color);
    if has_moved_rook_at(board, rook, king.color) {
        return false;
    }
    let path = side.squares_to_check(king.color);
    let ghost squares = castle_squares(side, king.color);
    // The squares between king and rook must be empty.
    let mut i: usize = 1;
    while i < 4
        invariant
            1 <= i <= 4,
            path@ == squares,
            squares == castle_squares(side, king.color),
            forall|j: int|
                1 <= j < i ==> (#[trigger] squares[j] matches Some(s) ==> !occupied(
                    board@,
                    s.0 as int,
                    s.1 as int,
                )),
        decreases 4 - i,
    {
        if let Some((x, y)) = path[i] {
            if is_occupied(board, x, y) {
                return false;
            }
        }
        i += 1;
    }
    // The king may not start on, cross or land on an attacked square.
    let mut i: usize = 0;
    while i < 4
        invariant
            i <= 4,
            depth > 0,
            path@ == squares,
            squares == castle_squares(side, king.color),
            board_in_range(board@),
            forall|j: int|
                0 <= j < i ==> (#[trigger] squares[j] matches Some(s) ==> (exempt_from_safety(s)
                    || !attacked(s, king.color, board@, (depth - 1) as nat))),
        decreases 4 - i,
    {
        if let Some(s) = path[i] {
            let exempt = (s.0 == 1 && s.1 == 0) || (s.0 == 1 && s.1 == 7);
            if !exempt && is_attacked(s, king.color, board, depth - 1) {
                return false;
            }
        }
        i += 1;
    }
    is_rook_at(board, rook, king.color)
}

/// `attacked` with `depth` castling evaluations left.
fn is_attacked(sq: (u8, u8), color: PieceColor, board: &[(Piece, Square)], depth: u8) -> (r: bool)
    requires
        on_board(sq.0 as int, sq.1 as int),
        board_in_range(board@),
    ensures
        r == attacked(sq, color, board@, depth as nat),
    decreases depth, 3int,
{
    let mut i: usize = 0;
    while i < board.len()
        invariant
            i <= board@.len(),
            on_board(sq.0 as int, sq.1 as int),
            board_in_range(board@),
            forall|j: int|
                0 <= j < i ==> !((#[trigger] board@[j]).0.color != color && geometry_ok(
                    board@[j].0,
                    (board@[j].1.x, board@[j].1.y),
                    sq,
                    board@,
                    depth as nat,
                )),
        decreases board.len() - i,
    {
        let (p, s) = board[i];
        assert(on_board(board@[i as int].1.x as int, board@[i as int].1.y as int));
        if p.color != color && geometric(&p, (s.x, s.y), sq, board, depth) {
            assert(geometry_ok(board@[i as int].0, (board@[i as int].1.x, board@[i as int].1.y), sq, board@, depth as nat));
            return true;
        }
        i += 1;
    }
    false
}

// ---------------------------------------------------------------------------
// Legality
// ---------------------------------------------------------------------------

/// Whether `piece` may move from `start` to `end` by the shape rules alone.
pub open spec fn geometrically_valid(piece: Piece, start: (u8, u8), end: (u8, u8), board: Seq<(Piece, Square)>) -> bool {
    geometry_ok(piece, start, end, board, CASTLE_NESTING as nat)
}

/// Whether `king` may castle toward `side`.
pub open spec fn castling_possible(king: Piece, side: CastleSide, board: Seq<(Piece, Square)>) -> bool {
    castling_ok(king, side, board, CASTLE_NESTING as nat)
}

/// Whether a piece not of `color` can reach `sq`.
pub open spec fn in_check(sq: (u8, u8), color: PieceColor, board: Seq<(Piece, Square)>) -> bool {
    attacked(sq, color, board, CASTLE_NESTING as nat)
}

/// The board after the piece on `start` moves to `end`: whatever stood on
/// `end` is removed, and the piece on `start` now stands on `end`.
pub open spec fn after_move(board: Seq<(Piece, Square)>, start: (u8, u8), end: (u8, u8)) -> Seq<(Piece, Square)>
    decreases board.len(),
{
    if board.len() == 0 {
        Seq::empty()
    } else {
        let rest = after_move(board.drop_last(), start, end);
        let e = board.last();
        if stands_at(e, end.0 as int, end.1 as int) {
            rest
        } else if stands_at(e, start.0 as int, start.1 as int) {
            rest.push((e.0, Square { x: end.0, y: end.1 }))
        } else {
            rest.push(e)
        }
    }
}

/// The square of the first king of `color` on the board, if any.
pub open spec fn first_king(board: Seq<(Piece, Square)>, color: PieceColor) -> Option<(u8, u8)>
    decreases board.len(),
{
    if board.len() == 0 {
        None
    } else if board[0].0.kind == PieceKind::King && board[0].0.color == color {
        Some((board[0].1.x, board[0].1.y))
    } else {
        first_king(board.drop_first(), color)
    }
}

/// Where the mover's king stands once `piece` has moved to `end` and the
/// board has become `after`; `(0, 0)` when no such king is on it.
pub open spec fn king_square_after(piece: Piece, end: (u8, u8), after: Seq<(Piece, Square)>) -> (u8, u8) {
    if piece.kind == PieceKind::King {
        end
    } else {
        match first_king(after, piece.color) {
            Some(s) => s,
            None => (0u8, 0u8),
        }
    }
}

/// A legal move: valid by the shape rules, and afterwards the mover's king is
/// not in check.
pub open spec fn legal_move(piece: Piece, start: (u8, u8), end: (u8, u8), board: Seq<(Piece, Square)>) -> bool {
    &&& geometrically_valid(piece, start, end, board)
    &&& !in_check(
        king_square_after(piece, end, after_move(board, start, end)),
        piece.color,
        after_move(board, start, end),
    )
}

/// `a` comes before `b` when squares are listed by `.0`, then by `.1`.
pub open spec fn precedes(a: (u8, u8), b: (u8, u8)) -> bool {
    a.0 < b.0 || (a.0 == b.0 && a.1 < b.1)
}

/// A copy of the board after the piece on `start` moves to `end`.
fn simulate_move(board: &[(Piece, Square)], start: (u8, u8), end: (u8, u8)) -> (r: Vec<(Piece, Square)>)
    requires
        on_board(end.0 as int, end.1 as int),
        board_in_range(board@),
    ensures
        r@ == after_move(board@, start, end),
        board_in_range(r@),
{
    let mut temp_board: Vec<(Piece, Square)> = Vec::new();
    let mut i: usize = 0;
    while i < board.len()
        invariant
            i <= board@.len(),
            on_board(end.0 as int, end.1 as int),
            board_in_range(board@),
            temp_board@ == after_move(board@.subrange(0, i as int), start, end),
            board_in_range(temp_board@),
        decreases board.len() - i,
    {
        let (p, s) = board[i];
        assert(board@.subrange(0, i + 1).drop_last() =~= board@.subrange(0, i as int));
        assert(on_board(board@[i as int].1.x as int, board@[i as int].1.y as int));
        if s.x == end.0 && s.y == end.1 {
        } else if s.x == start.0 && s.y == start.1 {
            temp_board.push((p, Square { x: end.0, y: end.1 }));
        } else {
            temp_board.push((p, s));
        }
        i += 1;
    }
    assert(board@.subrange(0, board@.len() as int) =~= board@);
    temp_board
}

/// The square of the first king of `color` on the board, if any.
fn find_king(board: &[(Piece, Square)], color: PieceColor) -> (r: Option<(u8, u8)>)
    requires
        board_in_range(board@),
    ensures
        r == first_king(board@, color),
        r matches Some(s) ==> on_board(s.0 as int, s.1 as int),
{
    let mut i: usize = 0;
    assert(board@.subrange(0, board@.len() as int) =~= board@);
    while i < board.len()
        invariant
            i <= board@.len(),
            board_in_range(board@),
            first_king(board@, color) == first_king(board@.subrange(i as int, board@.len() as int), color),
        decreases board.len() - i,
    {
        let (p, s) = board[i];
        assert(board@.subrange(i as int, board@.len() as int).drop_first() =~= board@.subrange(
            i + 1,
            board@.len() as int,
        ));
        if p.kind == PieceKind::King && p.color == color {
            assert(on_board(board@[i as int].1.x as int, board@[i as int].1.y as int));
            return Some((s.x, s.y));
        }
        i += 1;
    }
    None
}

/// Whether `piece` may move from `start` to `end` by the shape rules alone,
/// without regard to the safety of its own king.
pub fn is_geometrically_valid_move(piece: &Piece, start: (u8, u8), end: (u8, u8), board: &[(Piece, Square)]) -> (r: bool)
    requires
        on_board(start.0 as int, start.1 as int),
        on_board(end.0 as int, end.1 as int),
        board_in_range(board@),
    ensures
        r == geometrically_valid(*piece, start, end, board@),
{
    geometric(piece, start, end, board, CASTLE_NESTING)
}

/// Whether `king` may castle toward `side`: it has not moved, the rook of its
/// colour stands unmoved on its start square, the squares between them are
/// empty, and the king neither starts on, crosses nor lands on an attacked
/// square.
pub fn is_castling_possible(king: &Piece, side: CastleSide, board: &[(Piece, Square)]) -> (r: bool)
    requires
        board_in_range(board@),
    ensures
        r == castling_possible(*king, side, board@),
{
    castling(king, side, board, CASTLE_NESTING)
}

/// Whether a piece of the other colour than `color` can reach `king_position`.
pub fn is_king_in_check(king_position: (u8, u8), color: PieceColor, board: &[(Piece, Square)]) -> (r: bool)
    requires
        on_board(king_position.0 as int, king_position.1 as int),
        board_in_range(board@),
    ensures
        r == in_check(king_position, color, board@),
{
    is_attacked(king_position, color, board, CASTLE_NESTING)
}

/// Whether `piece`, standing on `start`, may legally move to `end`.
pub fn is_legal_move(piece: &Piece, start: (u8, u8), end: (u8, u8), board: &[(Piece, Square)]) -> (r: bool)
    requires
        on_board(start.0 as int, start.1 as int),
        on_board(end.0 as int, end.1 as int),
        board_in_range(board@),
    ensures
        r == legal_move(*piece, start, end, board@),
{
    if !geometric(piece, start, end, board, CASTLE_NESTING) {
        return false;
    }
    let temp_board = simulate_move(board, start, end);
    let king_position = if piece.kind == PieceKind::King {
        end
    } else {
        match find_king(temp_board.as_slice(), piece.color) {
            Some(s) => s,
            None => (0, 0),
        }
    };
    !is_attacked(king_position, piece.color, temp_board.as_slice(), CASTLE_NESTING)
}

/// Every square to which `piece`, standing on `start`, may legally move,
/// listed by `.0`, then by `.1`.
pub fn get_legal_moves(piece: &Piece, start: (u8, u8), board: &[(Piece, Square)]) -> (r: Vec<(u8, u8)>)
    requires
        on_board(start.0 as int, start.1 as int),
        board_in_range(board@),
    ensures
        forall|d: (u8, u8)|
            r@.contains(d) <==> (on_board(d.0 as int, d.1 as int) && legal_move(*piece, start, d, board@)),
        forall|i: int, j: int| 0 <= i < j < r@.len() ==> precedes(#[trigger] r@[i], #[trigger] r@[j]),
        r@.no_duplicates(),
        r@.len() <= 64,
{
    let mut legal_moves: Vec<(u8, u8)> = Vec::new();
    let mut row: u8 = 0;
    while row < 8
        invariant
            row <= 8,
            on_board(start.0 as int, start.1 as int),
            board_in_range(board@),
            legal_moves@.len() <= 8 * row,
            forall|k: int|
                0 <= k < legal_moves@.len() ==> {
                    let d = #[trigger] legal_moves@[k];
                    d.0 < row && d.1 < 8 && legal_move(*piece, start, d, board@)
                },
            forall|i: int, j: int|
                0 <= i < j < legal_moves@.len() ==> precedes(#[trigger] legal_moves@[i], #[trigger] legal_moves@[j]),
            forall|d: (u8, u8)|
                d.0 < row && d.1 < 8 && legal_move(*piece, start, d, board@) ==> legal_moves@.contains(d),
        decreases 8 - row,
    {
        let mut col: u8 = 0;
        while col < 8
            invariant
                row < 8,
                col <= 8,
                on_board(start.0 as int, start.1 as int),
                board_in_range(board@),
                legal_moves@.len() <= 8 * row + col,
                forall|k: int|
                    0 <= k < legal_moves@.len() ==> {
                        let d = #[trigger] legal_moves@[k];
                        precedes(d, (row, col)) && d.1 < 8 && legal_move(*piece, start, d, board@)
                    },
                forall|i: int, j: int|
                    0 <= i < j < legal_moves@.len() ==> precedes(#[trigger] legal_moves@[i], #[trigger] legal_moves@[j]),
                forall|d: (u8, u8)|
                    precedes(d, (row, col)) && d.1 < 8 && legal_move(*piece, start, d, board@)
                        ==> legal_moves@.contains(d),
            decreases 8 - col,
        {
            let ghost before = legal_moves@;
            if is_legal_move(piece, start, (row, col), board) {
                legal_moves.push((row, col));
            }
            assert forall|d: (u8, u8)|
                precedes(d, (row, (col + 1) as u8)) && d.1 < 8 && legal_move(*piece, start, d, board@)
                    implies legal_moves@.contains(d) by {
                if d == (row, col) {
                    assert(legal_moves@[legal_moves@.len() - 1] == d);
                } else {
                    assert(before.contains(d));
                    let k = choose|k: int| 0 <= k < before.len() && before[k] == d;
                    assert(legal_moves@[k] == d);
                }
            }
            col += 1;
        }
        row += 1;
    }
    legal_moves
}

/// The squares, in board order, of the kings of `color` among the first `n`
/// entries of the board that stand in check on the whole board.
pub open spec fn kings_in_check_on(board: Seq<(Piece, Square)>, n: nat, color: PieceColor) -> Seq<(u8, u8)>
    decreases n,
{
    if n == 0 {
        Seq::empty()
    } else {
        let rest = kings_in_check_on(board, (n - 1) as nat, color);
        let e = board[n - 1];
        let sq = (e.1.x, e.1.y);
        if e.0.kind == PieceKind::King && e.0.color == color && in_check(sq, color, board) {
            rest.push(sq)
        } else {
            rest
        }
    }
}

/// The squares of the kings of `color` that stand in check on `board`.
pub fn checked_kings(board: &[(Piece, Square)], color: PieceColor) -> (r: Vec<(u8, u8)>)
    requires
        board_in_range(board@),
    ensures
        r@ == kings_in_check_on(board@, board@.len(), color),
{
    let mut kings: Vec<(u8, u8)> = Vec::new();
    let mut i: usize = 0;
    while i < board.len()
        invariant
            i <= board@.len(),
            board_in_range(board@),
            kings@ == kings_in_check_on(board@, i as nat, color),
        decreases board.len() - i,
    {
        let (p, s) = board[i];
        assert(on_board(board@[i as int].1.x as int, board@[i as int].1.y as int));
        if p.kind == PieceKind::King && p.color == color && is_attacked((s.x, s.y), color, board, CASTLE_NESTING) {
            kings.push((s.x, s.y));
        }
        i += 1;
    }
    kings
}

} // verus!
