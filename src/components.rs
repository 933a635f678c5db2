use vstd::prelude::*;

verus! {

/// The side a piece belongs to.
#[derive(Clone, Copy, PartialEq, Eq, Debug, Structural)]
pub enum PieceColor {
    White,
    Black,
}

/// The kind of a chess piece.
#[derive(Clone, Copy, PartialEq, Eq, Debug, Structural)]
pub enum PieceKind {
    Pawn,
    Rook,
    Knight,
    Bishop,
    Queen,
    King,
}

/// A chess piece as the rules see it.
#[derive(Clone, Copy, Debug)]
pub struct Piece {
    pub color: PieceColor,
    pub kind: PieceKind,
    pub has_moved: bool,
    pub start_pos: (u8, u8),
}

/// A board coordinate: `x` is the file, `y` the rank, both in `0..8` on a valid board.
#[derive(Clone, Copy, PartialEq, Eq, Debug, Structural)]
pub struct Square {
    pub x: u8,
    pub y: u8,
}

impl PieceColor {
    /// The other side.
    pub fn opposite(&self) -> (r: PieceColor)
        ensures
            r != *self,
    {
        match self {
            PieceColor::White => PieceColor::Black,
            PieceColor::Black => PieceColor::White,
        }
    }

    /// The colour's name, as shown to players.
    pub fn name(&self) -> (r: &'static str)
        ensures
            *self == PieceColor::White ==> r@ == "White"@,
            *self == PieceColor::Black ==> r@ == "Black"@,
    {
        match self {
            PieceColor::White => "White",
            PieceColor::Black => "Black",
        }
    }
}

impl PieceKind {
    /// The kind's name, as shown to players.
    pub fn name(&self) -> (r: &'static str)
        ensures
            *self == PieceKind::Pawn ==> r@ == "Pawn"@,
            *self == PieceKind::Rook ==> r@ == "Rook"@,
            *self == PieceKind::Knight ==> r@ == "Knight"@,
            *self == PieceKind::Bishop ==> r@ == "Bishop"@,
            *self == PieceKind::Queen ==> r@ == "Queen"@,
            *self == PieceKind::King ==> r@ == "King"@,
    {
        match self {
            PieceKind::Pawn => "Pawn",
            PieceKind::Rook => "Rook",
            PieceKind::Knight => "Knight",
            PieceKind::Bishop => "Bishop",
            PieceKind::Queen => "Queen",
            PieceKind::King => "King",
        }
    }
}

} // verus!
