use chess::board::initial_board;
use chess::components::{Piece, PieceColor, PieceKind, Square};
use chess::rules::{
    get_legal_moves, is_castling_possible, is_geometrically_valid_move, is_king_in_check,
    is_legal_move, is_path_clear, CastleSide,
};

fn piece(color: PieceColor, kind: PieceKind, x: u8, y: u8) -> Piece {
    Piece { color, kind, has_moved: false, start_pos: (x, y) }
}

fn at(color: PieceColor, kind: PieceKind, x: u8, y: u8) -> (Piece, Square) {
    (piece(color, kind, x, y), Square { x, y })
}

fn moved(mut entry: (Piece, Square)) -> (Piece, Square) {
    entry.0.has_moved = true;
    entry
}

use PieceColor::{Black, White};
use PieceKind::{Bishop, King, Knight, Pawn, Queen, Rook};

fn castle_board() -> Vec<(Piece, Square)> {
    vec![
        at(White, King, 4, 0),
        at(White, Rook, 7, 0),
        at(White, Rook, 0, 0),
        at(Black, King, 4, 7),
    ]
}

#[test]
fn own_color_target_is_illegal_for_every_kind() {
    for kind in [Pawn, Rook, Knight, Bishop, Queen, King] {
        let mover = at(White, kind, 3, 3);
        let targets = [(3, 4), (4, 4), (4, 5), (2, 3)];
        for t in targets {
            let board = vec![mover, at(White, Pawn, t.0, t.1), at(White, King, 7, 7)];
            assert!(!is_geometrically_valid_move(&mover.0, (3, 3), t, &board));
            assert!(!is_legal_move(&mover.0, (3, 3), t, &board));
        }
    }
}

#[test]
fn null_move_is_illegal() {
    for kind in [Pawn, Rook, Knight, Bishop, Queen, King] {
        let mover = at(Black, kind, 5, 5);
        let board = vec![mover];
        assert!(!is_legal_move(&mover.0, (5, 5), (5, 5), &board));
    }
}

#[test]
fn sliding_pieces_are_blocked() {
    let rook = at(White, Rook, 0, 0);
    let board = vec![rook, at(Black, Pawn, 0, 3), at(White, King, 7, 7)];
    assert!(is_legal_move(&rook.0, (0, 0), (0, 2), &board));
    assert!(is_legal_move(&rook.0, (0, 0), (0, 3), &board));
    assert!(!is_legal_move(&rook.0, (0, 0), (0, 4), &board));
    assert!(!is_legal_move(&rook.0, (0, 0), (1, 1), &board));

    let bishop = at(White, Bishop, 2, 0);
    let board = vec![bishop, at(Black, Knight, 4, 2), at(White, King, 7, 7)];
    assert!(is_legal_move(&bishop.0, (2, 0), (3, 1), &board));
    assert!(is_legal_move(&bishop.0, (2, 0), (4, 2), &board));
    assert!(!is_legal_move(&bishop.0, (2, 0), (5, 3), &board));
    assert!(!is_legal_move(&bishop.0, (2, 0), (2, 1), &board));

    let queen = at(Black, Queen, 3, 7);
    let board = vec![queen, at(White, Pawn, 3, 5), at(Black, King, 7, 7)];
    assert!(!is_legal_move(&queen.0, (3, 7), (3, 4), &board));
    assert!(is_legal_move(&queen.0, (3, 7), (0, 4), &board));
    assert!(!is_legal_move(&queen.0, (3, 7), (4, 5), &board));
}

#[test]
fn path_clear_counts_only_squares_strictly_between() {
    let board = vec![at(White, Pawn, 0, 0), at(White, Pawn, 5, 5)];
    assert!(is_path_clear((0, 0), (5, 5), &board));
    assert!(!is_path_clear((0, 0), (6, 6), &board));
    assert!(is_path_clear((2, 5), (5, 5), &board));
    assert!(!is_path_clear((7, 5), (2, 5), &board));
    assert!(is_path_clear((3, 3), (3, 4), &board));
}

#[test]
fn knight_jumps_over_pieces() {
    let knight = at(White, Knight, 1, 0);
    let mut board = vec![knight, at(White, King, 4, 0)];
    for x in 0..3 {
        board.push(at(White, Pawn, x, 1));
        board.push(at(Black, Pawn, x, 2 + 3 * (x % 2)));
    }
    assert!(is_legal_move(&knight.0, (1, 0), (0, 2), &board));
    assert!(is_legal_move(&knight.0, (1, 0), (2, 2), &board));
    assert!(!is_legal_move(&knight.0, (1, 0), (3, 1), &vec![knight, at(White, Pawn, 3, 1)]));
    assert!(!is_legal_move(&knight.0, (1, 0), (1, 2), &board));
}

#[test]
fn white_pawn_double_step() {
    let pawn = at(White, Pawn, 4, 1);
    let king = at(White, King, 0, 0);
    assert!(is_legal_move(&pawn.0, (4, 1), (4, 3), &vec![pawn, king]));
    assert!(!is_legal_move(&pawn.0, (4, 1), (4, 3), &vec![pawn, king, at(Black, Knight, 4, 2)]));
    assert!(!is_legal_move(&pawn.0, (4, 1), (4, 3), &vec![pawn, king, at(Black, Knight, 4, 3)]));
    assert!(!is_legal_move(&pawn.0, (4, 1), (4, 3), &vec![pawn, king, at(White, Knight, 4, 2)]));
    let advanced = at(White, Pawn, 4, 2);
    assert!(!is_legal_move(&advanced.0, (4, 2), (4, 4), &vec![advanced, king]));
}

#[test]
fn black_pawn_moves_down_the_board() {
    let pawn = at(Black, Pawn, 2, 6);
    let king = at(Black, King, 7, 7);
    assert!(is_legal_move(&pawn.0, (2, 6), (2, 5), &vec![pawn, king]));
    assert!(is_legal_move(&pawn.0, (2, 6), (2, 4), &vec![pawn, king]));
    assert!(!is_legal_move(&pawn.0, (2, 6), (2, 7), &vec![pawn, king]));
    assert!(!is_legal_move(&pawn.0, (2, 6), (2, 5), &vec![pawn, king, at(White, Pawn, 2, 5)]));
}

#[test]
fn pawn_diagonal_needs_an_enemy() {
    let pawn = at(White, Pawn, 3, 3);
    let king = at(White, King, 0, 0);
    assert!(!is_legal_move(&pawn.0, (3, 3), (4, 4), &vec![pawn, king]));
    assert!(is_legal_move(&pawn.0, (3, 3), (4, 4), &vec![pawn, king, at(Black, Rook, 4, 4)]));
    assert!(!is_legal_move(&pawn.0, (3, 3), (4, 4), &vec![pawn, king, at(White, Rook, 4, 4)]));
    assert!(!is_legal_move(&pawn.0, (3, 3), (2, 2), &vec![pawn, king, at(Black, Rook, 2, 2)]));
}

#[test]
fn king_may_not_step_into_check_on_its_file() {
    let king = at(White, King, 4, 0);
    let board = vec![king, at(Black, Rook, 4, 7)];
    assert!(is_king_in_check((4, 0), White, &board));
    assert!(!is_legal_move(&king.0, (4, 0), (4, 1), &board));
    assert!(is_legal_move(&king.0, (4, 0), (3, 0), &board));
    assert!(is_legal_move(&king.0, (4, 0), (5, 1), &board));
}

#[test]
fn pinned_piece_may_not_leave_the_line() {
    let king = at(White, King, 4, 0);
    let bishop = at(White, Bishop, 4, 3);
    let board = vec![king, bishop, at(Black, Rook, 4, 7)];
    assert!(!is_legal_move(&bishop.0, (4, 3), (5, 4), &board));
    let rook = at(White, Rook, 4, 3);
    let board = vec![king, rook, at(Black, Rook, 4, 7)];
    assert!(is_legal_move(&rook.0, (4, 3), (4, 7), &board));
    assert!(is_legal_move(&rook.0, (4, 3), (4, 5), &board));
    assert!(!is_legal_move(&rook.0, (4, 3), (3, 3), &board));
}

#[test]
fn king_side_castle_is_accepted() {
    let board = castle_board();
    let king = board[0].0;
    assert!(is_castling_possible(&king, CastleSide::KingSide, &board));
    assert!(is_legal_move(&king, (4, 0), (6, 0), &board));
    assert!(is_legal_move(&king, (4, 0), (2, 0), &board));
}

#[test]
fn black_castles_on_rank_seven() {
    let board = vec![at(Black, King, 4, 7), at(Black, Rook, 7, 7), at(Black, Rook, 0, 7), at(White, King, 4, 0)];
    let king = board[0].0;
    assert!(is_legal_move(&king, (4, 7), (6, 7), &board));
    assert!(is_legal_move(&king, (4, 7), (2, 7), &board));
}

#[test]
fn castle_rejected_after_king_moved() {
    let mut board = castle_board();
    board[0] = moved(board[0]);
    let king = board[0].0;
    assert!(!is_legal_move(&king, (4, 0), (6, 0), &board));
    assert!(!is_legal_move(&king, (4, 0), (2, 0), &board));
}

#[test]
fn castle_rejected_after_rook_moved() {
    let mut board = castle_board();
    board[1] = moved(board[1]);
    let king = board[0].0;
    assert!(!is_legal_move(&king, (4, 0), (6, 0), &board));
    assert!(is_legal_move(&king, (4, 0), (2, 0), &board));
}

#[test]
fn castle_rejected_without_rook() {
    let board = vec![at(White, King, 4, 0), at(Black, King, 4, 7)];
    let king = board[0].0;
    assert!(!is_legal_move(&king, (4, 0), (6, 0), &board));
    let board = vec![at(White, King, 4, 0), at(Black, Rook, 7, 0), at(Black, King, 4, 7)];
    assert!(!is_castling_possible(&king, CastleSide::KingSide, &board));
}

#[test]
fn castle_rejected_when_squares_between_are_occupied() {
    let king = piece(White, King, 4, 0);
    for blocker in [(5, 0), (6, 0)] {
        let mut board = castle_board();
        board.push(at(White, Knight, blocker.0, blocker.1));
        assert!(!is_legal_move(&king, (4, 0), (6, 0), &board));
    }
    for blocker in [(3, 0), (2, 0), (1, 0)] {
        let mut board = castle_board();
        board.push(at(White, Knight, blocker.0, blocker.1));
        assert!(!is_legal_move(&king, (4, 0), (2, 0), &board));
        assert!(is_legal_move(&king, (4, 0), (6, 0), &board));
    }
}

#[test]
fn castle_rejected_out_of_check() {
    let mut board = castle_board();
    board.push(at(Black, Rook, 4, 5));
    let king = board[0].0;
    assert!(!is_legal_move(&king, (4, 0), (6, 0), &board));
    assert!(!is_legal_move(&king, (4, 0), (2, 0), &board));
}

#[test]
fn castle_rejected_through_attacked_square() {
    let king = piece(White, King, 4, 0);
    for file in [5, 6] {
        let mut board = castle_board();
        board.push(at(Black, Rook, file, 5));
        assert!(!is_legal_move(&king, (4, 0), (6, 0), &board));
        assert!(is_legal_move(&king, (4, 0), (2, 0), &board));
    }
    for file in [3, 2] {
        let mut board = castle_board();
        board.push(at(Black, Rook, file, 5));
        assert!(!is_legal_move(&king, (4, 0), (2, 0), &board));
        assert!(is_legal_move(&king, (4, 0), (6, 0), &board));
    }
}

#[test]
fn queen_side_rook_square_may_be_attacked() {
    let mut board = castle_board();
    board.push(at(Black, Rook, 1, 5));
    let king = board[0].0;
    assert!(is_legal_move(&king, (4, 0), (2, 0), &board));
}

#[test]
fn legal_moves_match_legality_on_every_square() {
    let board = vec![
        at(White, King, 4, 0),
        at(White, Queen, 3, 3),
        at(White, Pawn, 3, 4),
        at(Black, Knight, 5, 5),
        at(Black, Rook, 0, 3),
        at(Black, King, 7, 7),
    ];
    for (p, s) in board.iter() {
        let start = (s.x, s.y);
        let moves = get_legal_moves(p, start, &board);
        let mut expected = Vec::new();
        for a in 0..8u8 {
            for b in 0..8u8 {
                if is_legal_move(p, start, (a, b), &board) {
                    expected.push((a, b));
                }
            }
        }
        assert_eq!(moves, expected);
        assert!(moves.len() <= 64);
        for w in moves.windows(2) {
            assert!(w[0] < w[1]);
        }
    }
}

#[test]
fn queen_on_empty_board_has_full_reach() {
    let queen = at(White, Queen, 3, 3);
    let board = vec![queen];
    let moves = get_legal_moves(&queen.0, (3, 3), &board);
    assert_eq!(moves.len(), 27);
    assert!(moves.contains(&(0, 0)));
    assert!(moves.contains(&(7, 7)));
    assert!(moves.contains(&(3, 0)));
    assert!(!moves.contains(&(4, 5)));
}

#[test]
fn initial_rook_has_no_moves_and_king_pawn_two() {
    let board = initial_board();
    let rook = board.iter().find(|(_, s)| s.x == 0 && s.y == 0).unwrap().0;
    assert_eq!(rook.kind, Rook);
    assert_eq!(rook.color, White);
    assert!(get_legal_moves(&rook, (0, 0), &board).is_empty());
    let pawn = board.iter().find(|(_, s)| s.x == 4 && s.y == 1).unwrap().0;
    assert_eq!(pawn.kind, Pawn);
    assert_eq!(get_legal_moves(&pawn, (4, 1), &board), vec![(4, 2), (4, 3)]);
    let knight = board.iter().find(|(_, s)| s.x == 6 && s.y == 7).unwrap().0;
    assert_eq!(get_legal_moves(&knight, (6, 7), &board), vec![(5, 5), (7, 5)]);
}

#[test]
fn initial_board_layout() {
    let board = initial_board();
    assert_eq!(board.len(), 32);
    let kinds = [Rook, Knight, Bishop, Queen, King, Bishop, Knight, Rook];
    for x in 0..8u8 {
        let find = |y: u8| board.iter().find(|(_, s)| s.x == x && s.y == y).unwrap().0;
        assert_eq!(find(0).kind, kinds[x as usize]);
        assert_eq!(find(0).color, White);
        assert_eq!(find(7).kind, kinds[x as usize]);
        assert_eq!(find(7).color, Black);
        assert_eq!(find(1).kind, Pawn);
        assert_eq!(find(6).color, Black);
        assert!(!find(6).has_moved);
        assert_eq!(find(6).start_pos, (x, 6));
    }
    assert!(board.iter().all(|(_, s)| s.y <= 1 || s.y >= 6));
}

#[test]
fn check_ignores_board_order() {
    let board = vec![
        at(White, King, 4, 0),
        at(Black, Bishop, 1, 3),
        at(White, Pawn, 3, 1),
        at(Black, Rook, 4, 6),
        at(White, Knight, 4, 4),
        at(Black, King, 4, 7),
    ];
    let mut reversed = board.clone();
    reversed.reverse();
    let mut rotated = board.clone();
    rotated.rotate_left(2);
    for x in 0..8u8 {
        for y in 0..8u8 {
            for color in [White, Black] {
                let a = is_king_in_check((x, y), color, &board);
                assert_eq!(a, is_king_in_check((x, y), color, &reversed));
                assert_eq!(a, is_king_in_check((x, y), color, &rotated));
            }
        }
    }
    assert!(!is_king_in_check((4, 0), White, &board));
    assert!(is_king_in_check((3, 1), White, &board));
}

#[test]
fn missing_king_falls_back_to_corner() {
    let rook = at(White, Rook, 3, 3);
    let board = vec![rook, at(Black, Rook, 0, 7)];
    assert!(!is_legal_move(&rook.0, (3, 3), (3, 4), &board));
    let board = vec![rook, at(Black, Rook, 1, 7)];
    assert!(is_legal_move(&rook.0, (3, 3), (3, 4), &board));
}

#[test]
fn kings_on_each_others_home_rank_are_decided() {
    let board = vec![at(White, King, 2, 7), at(Black, King, 2, 0)];
    assert!(!is_king_in_check((4, 0), White, &board));
    assert!(!is_king_in_check((4, 7), Black, &board));
    let king = board[0].0;
    assert!(!is_legal_move(&king, (2, 7), (4, 7), &board));
}

#[test]
fn king_two_files_away_does_not_attack() {
    let board = vec![at(Black, King, 4, 7), at(White, Pawn, 6, 7), at(White, Pawn, 5, 6)];
    assert!(!is_king_in_check((6, 7), White, &board));
    assert!(is_king_in_check((5, 6), White, &board));
}
