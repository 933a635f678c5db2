use chess::board::{initial_board, is_dark_square};
use chess::components::{Piece, PieceColor, PieceKind, Square};
use chess::input::{decide_click, ClickAction};
use chess::resources::GameState;
use chess::rules::checked_kings;
use chess::ui::turn_text;

use PieceColor::{Black, White};
use PieceKind::{King, Knight, Pawn, Rook};

fn at(color: PieceColor, kind: PieceKind, x: u8, y: u8) -> (Piece, Square) {
    (Piece { color, kind, has_moved: false, start_pos: (x, y) }, Square { x, y })
}

fn index_of(board: &[(Piece, Square)], x: u8, y: u8) -> usize {
    board.iter().position(|(_, s)| s.x == x && s.y == y).unwrap()
}

#[test]
fn click_selects_own_piece_only() {
    let board = initial_board();
    let pawn = index_of(&board, 4, 1);
    assert_eq!(decide_click(&board, None, 4, 1, White), ClickAction::Select { index: pawn });
    assert_eq!(decide_click(&board, None, 4, 6, White), ClickAction::Ignore);
    assert_eq!(decide_click(&board, None, 4, 4, White), ClickAction::Ignore);
    assert_eq!(decide_click(&board, None, 8, 1, White), ClickAction::Ignore);
}

#[test]
fn click_moves_selected_piece() {
    let board = initial_board();
    let pawn = index_of(&board, 4, 1);
    assert_eq!(
        decide_click(&board, Some(pawn), 4, 3, White),
        ClickAction::Move { index: pawn, to: (4, 3), rook: None }
    );
    assert_eq!(decide_click(&board, Some(pawn), 4, 4, White), ClickAction::Ignore);
    assert_eq!(decide_click(&board, Some(pawn), 4, 3, Black), ClickAction::Ignore);
}

#[test]
fn click_deselects_and_switches() {
    let board = initial_board();
    let pawn = index_of(&board, 4, 1);
    let knight = index_of(&board, 6, 0);
    assert_eq!(decide_click(&board, Some(pawn), 4, 1, White), ClickAction::Deselect { index: pawn });
    assert_eq!(
        decide_click(&board, Some(pawn), 6, 0, White),
        ClickAction::SwitchSelection { from: pawn, to: knight }
    );
    assert_eq!(decide_click(&board, Some(99), 4, 1, White), ClickAction::Select { index: pawn });
}

#[test]
fn click_captures_enemy() {
    let board = vec![at(White, King, 0, 0), at(White, Pawn, 3, 3), at(Black, Knight, 4, 4), at(Black, King, 7, 7)];
    assert_eq!(
        decide_click(&board, Some(1), 4, 4, White),
        ClickAction::Capture { index: 1, target: 2, to: (4, 4) }
    );
    assert_eq!(decide_click(&board, Some(1), 4, 4, Black), ClickAction::Ignore);
    assert_eq!(decide_click(&board, Some(0), 7, 7, White), ClickAction::Ignore);
}

#[test]
fn click_castles_with_rook() {
    let board = vec![at(White, King, 4, 0), at(White, Rook, 7, 0), at(White, Rook, 0, 0), at(Black, King, 4, 7)];
    assert_eq!(
        decide_click(&board, Some(0), 6, 0, White),
        ClickAction::Move { index: 0, to: (6, 0), rook: Some((1, (5, 0))) }
    );
    assert_eq!(
        decide_click(&board, Some(0), 2, 0, White),
        ClickAction::Move { index: 0, to: (2, 0), rook: Some((2, (3, 0))) }
    );
    assert_eq!(
        decide_click(&board, Some(0), 5, 0, White),
        ClickAction::Move { index: 0, to: (5, 0), rook: None }
    );
}

#[test]
fn kings_in_check_are_reported() {
    let board = vec![at(White, King, 4, 0), at(Black, Rook, 4, 7), at(Black, King, 0, 7)];
    assert_eq!(checked_kings(&board, White), vec![(4, 0)]);
    assert!(checked_kings(&board, Black).is_empty());
    assert!(checked_kings(&initial_board(), White).is_empty());
}

#[test]
fn game_state_starts_with_white() {
    let mut state = GameState::default();
    assert_eq!(state.turn, White);
    assert_eq!(state.en_passant_target, None);
    state.pass_turn();
    assert_eq!(state.turn, Black);
    state.pass_turn();
    assert_eq!(state.turn, White);
}

#[test]
fn names_and_texts() {
    assert_eq!(turn_text(White), "White To Play");
    assert_eq!(turn_text(Black), "Black To Play");
    assert_eq!(White.name(), "White");
    assert_eq!(Black.name(), "Black");
    assert_eq!(King.name(), "King");
    assert_eq!(Knight.name(), "Knight");
    assert_eq!(Rook.name(), "Rook");
    assert_eq!(White.opposite(), Black);
}

#[test]
fn dark_squares_alternate() {
    assert!(is_dark_square(0, 0));
    assert!(!is_dark_square(0, 1));
    assert!(is_dark_square(7, 7));
    assert!(!is_dark_square(7, 0));
}
