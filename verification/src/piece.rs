use vstd::prelude::*;

verus! {

/// The two sides of a chess game.
#[derive(Clone, Copy, Debug, PartialEq, Eq, Structural)]
pub enum Color {
    White,
    Black,
}

/// The six kinds of chess piece.
#[derive(Clone, Copy, Debug, PartialEq, Eq, Structural)]
pub enum PieceKind {
    Pawn,
    Rook,
    Knight,
    Bishop,
    Queen,
    King,
}

/// What one square of the board holds: nothing, or a piece of some kind and
/// color. "Empty" is a real variant rather than a reserved sentinel code.
#[derive(Clone, Copy, Debug, PartialEq, Eq, Structural)]
pub enum Piece {
    Empty,
    Occupied(PieceKind, Color),
}

/// The opponent of `c`.
pub open spec fn spec_other(c: Color) -> Color {
    match c {
        Color::White => Color::Black,
        Color::Black => Color::White,
    }
}

/// The color of `p`, or `None` for an empty square.
pub open spec fn spec_color_of(p: Piece) -> Option<Color> {
    match p {
        Piece::Empty => None,
        Piece::Occupied(_, c) => Some(c),
    }
}

/// The kind of `p`, or `None` for an empty square.
pub open spec fn spec_kind_of(p: Piece) -> Option<PieceKind> {
    match p {
        Piece::Empty => None,
        Piece::Occupied(k, _) => Some(k),
    }
}

/// Both squares hold pieces and the pieces have the same color.
pub open spec fn spec_same_color(p: Piece, q: Piece) -> bool {
    match (p, q) {
        (Piece::Occupied(_, c1), Piece::Occupied(_, c2)) => c1 == c2,
        _ => false,
    }
}

/// Both squares hold pieces and the pieces have different colors.
pub open spec fn spec_opposite_color(p: Piece, q: Piece) -> bool {
    match (p, q) {
        (Piece::Occupied(_, c1), Piece::Occupied(_, c2)) => c1 != c2,
        _ => false,
    }
}

/// The opponent of `c`.
pub fn other_color(c: Color) -> (r: Color)
    ensures
        r == spec_other(c),
{
    match c {
        Color::White => Color::Black,
        Color::Black => Color::White,
    }
}

/// True exactly when `piece` is a white piece.
pub fn is_piece_white(piece: Piece) -> (r: bool)
    ensures
        r == (spec_color_of(piece) == Some(Color::White)),
{
    match piece {
        Piece::Occupied(_, Color::White) => true,
        _ => false,
    }
}

/// True exactly when `piece` is a black piece.
pub fn is_piece_black(piece: Piece) -> (r: bool)
    ensures
        r == (spec_color_of(piece) == Some(Color::Black)),
{
    match piece {
        Piece::Occupied(_, Color::Black) => true,
        _ => false,
    }
}

/// True exactly when both squares hold pieces of the same color.
pub fn is_same_color(piece_1: Piece, piece_2: Piece) -> (r: bool)
    ensures
        r == spec_same_color(piece_1, piece_2),
{
    match (piece_1, piece_2) {
        (Piece::Occupied(_, c1), Piece::Occupied(_, c2)) => c1 == c2,
        _ => false,
    }
}

/// True exactly when both squares hold pieces of different colors.
pub fn is_opposite_color(piece_1: Piece, piece_2: Piece) -> (r: bool)
    ensures
        r == spec_opposite_color(piece_1, piece_2),
{
    match (piece_1, piece_2) {
        (Piece::Occupied(_, c1), Piece::Occupied(_, c2)) => c1 != c2,
        _ => false,
    }
}

} // verus!
