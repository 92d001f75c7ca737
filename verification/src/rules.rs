use vstd::prelude::*;
use crate::piece::{Color, Piece, PieceKind, spec_other, spec_color_of, spec_same_color, spec_opposite_color};
use crate::square::Position;

verus! {

/// The four castling permissions, one per color and side. Each is cleared
/// when the king or the matching rook first moves (or the rook is captured
/// on its home square) and is never restored.
#[derive(Clone, Copy, Debug, PartialEq, Eq, Structural)]
pub struct CastlingRights {
    pub white_kingside: bool,
    pub white_queenside: bool,
    pub black_kingside: bool,
    pub black_queenside: bool,
}

/// The mathematical model of a position: 64 squares in row-major order
/// (index = row * 8 + col), the side to move, castling rights, the
/// en-passant target and the two move counters.
#[verifier::ext_equal]
pub struct BoardModel {
    pub squares: Seq<Piece>,
    pub turn: Color,
    pub rights: CastlingRights,
    pub ep: Option<Position>,
    pub half_moves: int,
    pub full_moves: int,
}

/// Both coordinates lie on the 8x8 board.
pub open spec fn in_bounds(r: int, c: int) -> bool {
    0 <= r < 8 && 0 <= c < 8
}

/// The piece on square (`r`, `c`) of the row-major board `s`.
pub open spec fn at(s: Seq<Piece>, r: int, c: int) -> Piece {
    s[r * 8 + c]
}

/// The rank on which pawns of color `c` start.
pub open spec fn pawn_home_row(c: Color) -> int {
    if c == Color::White {
        1
    } else {
        6
    }
}

/// The row direction in which pawns of color `c` advance.
pub open spec fn forward(c: Color) -> int {
    if c == Color::White {
        1
    } else {
        -1
    }
}

/// The rank on which the king of color `c` starts.
pub open spec fn king_home_row(c: Color) -> int {
    if c == Color::White {
        0
    } else {
        7
    }
}

/// The en-passant target square is `(tr, tc)`.
pub open spec fn ep_is(ep: Option<Position>, tr: int, tc: int) -> bool {
    ep matches Some(t) && t.row == tr && t.col == tc
}

/// A pawn of color `col` standing on (`fr`, `fc`) may pseudo-legally move to
/// (`tr`, `tc`): one step forward onto an empty square, two steps from its
/// home rank over empty squares, or one step diagonally forward onto an
/// enemy piece or onto the en-passant target.
pub open spec fn pawn_target_ok(
    m: BoardModel,
    fr: int,
    fc: int,
    tr: int,
    tc: int,
    col: Color,
) -> bool {
    let d = forward(col);
    ||| (tr == fr + d && tc == fc && in_bounds(tr, tc) && at(m.squares, tr, tc) is Empty)
    ||| (tr == fr + 2 * d && tc == fc && fr == pawn_home_row(col) && in_bounds(fr + d, fc)
        && in_bounds(tr, tc) && at(m.squares, fr + d, fc) is Empty && at(m.squares, tr, tc) is Empty)
    ||| ((tc == fc + 1 || tc == fc - 1) && tr == fr + d && in_bounds(tr, tc)
        && (spec_opposite_color(at(m.squares, fr, fc), at(m.squares, tr, tc))
            || ep_is(m.ep, tr, tc)))
}

/// (`tr`, `tc`) is a knight's jump away from (`fr`, `fc`).
pub open spec fn knight_jump(fr: int, fc: int, tr: int, tc: int) -> bool {
    let dr = tr - fr;
    let dc = tc - fc;
    ||| ((dr == 2 || dr == -2) && (dc == 1 || dc == -1))
    ||| ((dr == 1 || dr == -1) && (dc == 2 || dc == -2))
}

/// A knight on (`fr`, `fc`) may pseudo-legally move to (`tr`, `tc`).
pub open spec fn knight_target_ok(m: BoardModel, fr: int, fc: int, tr: int, tc: int) -> bool {
    knight_jump(fr, fc, tr, tc) && in_bounds(tr, tc) && !spec_same_color(
        at(m.squares, fr, fc),
        at(m.squares, tr, tc),
    )
}

/// Walking from (`r`, `c`) in direction (`dr`, `dc`), one step at a time over
/// empty in-bounds squares, the piece `p` reaches (`tr`, `tc`): the walk stops
/// before leaving the board, stops excluding a same-color piece, and stops
/// including an opposite-color piece as a capture.
pub open spec fn slide_reaches(
    s: Seq<Piece>,
    p: Piece,
    r: int,
    c: int,
    dr: int,
    dc: int,
    tr: int,
    tc: int,
) -> bool
    decreases
            (if dr > 0 {
                7 - r
            } else if dr < 0 {
                r
            } else if dc > 0 {
                7 - c
            } else {
                c
            }),
{
    let nr = r + dr;
    let nc = c + dc;
    if !((dr != 0 || dc != 0) && in_bounds(nr, nc)) {
        false
    } else if nr == tr && nc == tc {
        !spec_same_color(p, at(s, nr, nc))
    } else if at(s, nr, nc) is Empty {
        slide_reaches(s, p, nr, nc, dr, dc, tr, tc)
    } else {
        false
    }
}

/// A rook move: a straight-line slide in one of the four orthogonal
/// directions.
pub open spec fn rook_target_ok(m: BoardModel, fr: int, fc: int, tr: int, tc: int) -> bool {
    let p = at(m.squares, fr, fc);
    ||| slide_reaches(m.squares, p, fr, fc, 0, 1, tr, tc)
    ||| slide_reaches(m.squares, p, fr, fc, 0, -1, tr, tc)
    ||| slide_reaches(m.squares, p, fr, fc, 1, 0, tr, tc)
    ||| slide_reaches(m.squares, p, fr, fc, -1, 0, tr, tc)
}

/// A bishop move: a straight-line slide in one of the four diagonal
/// directions.
pub open spec fn bishop_target_ok(m: BoardModel, fr: int, fc: int, tr: int, tc: int) -> bool {
    let p = at(m.squares, fr, fc);
    ||| slide_reaches(m.squares, p, fr, fc, 1, 1, tr, tc)
    ||| slide_reaches(m.squares, p, fr, fc, 1, -1, tr, tc)
    ||| slide_reaches(m.squares, p, fr, fc, -1, 1, tr, tc)
    ||| slide_reaches(m.squares, p, fr, fc, -1, -1, tr, tc)
}

/// A queen move: a rook move or a bishop move.
pub open spec fn queen_target_ok(m: BoardModel, fr: int, fc: int, tr: int, tc: int) -> bool {
    rook_target_ok(m, fr, fc, tr, tc) || bishop_target_ok(m, fr, fc, tr, tc)
}

/// (`tr`, `tc`) is one king step away from (`fr`, `fc`).
pub open spec fn king_step(fr: int, fc: int, tr: int, tc: int) -> bool {
    let dr = tr - fr;
    let dc = tc - fc;
    -1 <= dr <= 1 && -1 <= dc <= 1 && !(dr == 0 && dc == 0)
}

/// The kingside castling right of color `c`.
pub open spec fn kingside_right(rights: CastlingRights, c: Color) -> bool {
    if c == Color::White {
        rights.white_kingside
    } else {
        rights.black_kingside
    }
}

/// The queenside castling right of color `c`.
pub open spec fn queenside_right(rights: CastlingRights, c: Color) -> bool {
    if c == Color::White {
        rights.white_queenside
    } else {
        rights.black_queenside
    }
}

/// A pseudo castling move of the king of color `col`: from its home square,
/// two columns toward a rook, offered when the matching right is set and
/// every square between king and rook is empty. Whether the king's start or
/// transit square is attacked is deliberately not examined here; the
/// legality filter does that.
pub open spec fn castle_target_ok(
    m: BoardModel,
    fr: int,
    fc: int,
    tr: int,
    tc: int,
    col: Color,
) -> bool {
    fr == king_home_row(col) && fc == 4 && tr == fr && ((tc == 6 && kingside_right(m.rights, col)
        && at(m.squares, fr, 5) is Empty && at(m.squares, fr, 6) is Empty) || (tc == 2
        && queenside_right(m.rights, col) && at(m.squares, fr, 1) is Empty
        && at(m.squares, fr, 2) is Empty && at(m.squares, fr, 3) is Empty))
}

/// A king on (`fr`, `fc`) may pseudo-legally move to (`tr`, `tc`): one step
/// in any direction onto a square without a same-color piece, or a pseudo
/// castling move.
pub open spec fn king_target_ok(
    m: BoardModel,
    fr: int,
    fc: int,
    tr: int,
    tc: int,
    col: Color,
) -> bool {
    ||| (king_step(fr, fc, tr, tc) && in_bounds(tr, tc) && !spec_same_color(
        at(m.squares, fr, fc),
        at(m.squares, tr, tc),
    ))
    ||| castle_target_ok(m, fr, fc, tr, tc, col)
}

/// The piece on (`fr`, `fc`) may pseudo-legally move to (`tr`, `tc`):
/// the movement pattern of its kind permits it, disregarding whether the
/// mover's own king is left attacked.
pub open spec fn pseudo_target_ok(m: BoardModel, fr: int, fc: int, tr: int, tc: int) -> bool {
    in_bounds(fr, fc) && match at(m.squares, fr, fc) {
        Piece::Empty => false,
        Piece::Occupied(k, col) => match k {
            PieceKind::Pawn => pawn_target_ok(m, fr, fc, tr, tc, col),
            PieceKind::Rook => rook_target_ok(m, fr, fc, tr, tc),
            PieceKind::Knight => knight_target_ok(m, fr, fc, tr, tc),
            PieceKind::Bishop => bishop_target_ok(m, fr, fc, tr, tc),
            PieceKind::Queen => queen_target_ok(m, fr, fc, tr, tc),
            PieceKind::King => king_target_ok(m, fr, fc, tr, tc, col),
        },
    }
}

/// Some piece whose color differs from `defender` has a pseudo-legal move
/// onto (`tr`, `tc`). The pseudo-legal generator is used on purpose:
/// legality filtering itself depends on attack detection, and using the
/// filtered generator here would recurse forever.
pub open spec fn square_attacked(m: BoardModel, tr: int, tc: int, defender: Color) -> bool {
    exists|fr: int, fc: int|
        in_bounds(fr, fc) && spec_color_of(at(m.squares, fr, fc)) == Some(spec_other(defender))
            && #[trigger] pseudo_target_ok(m, fr, fc, tr, tc)
}

/// The board holds a king of color `col`.
pub open spec fn has_king(s: Seq<Piece>, col: Color) -> bool {
    exists|i: int| 0 <= i < 64 && s[i] == Piece::Occupied(PieceKind::King, col)
}

/// The board holds at most one king of color `col`.
pub open spec fn king_unique(s: Seq<Piece>, col: Color) -> bool {
    forall|i: int, j: int|
        0 <= i < 64 && 0 <= j < 64 && s[i] == Piece::Occupied(PieceKind::King, col) && s[j]
            == Piece::Occupied(PieceKind::King, col) ==> i == j
}

/// The board index of the king of color `col` (meaningful when the king is
/// present and unique).
pub open spec fn king_index(s: Seq<Piece>, col: Color) -> int {
    choose|i: int| 0 <= i < 64 && s[i] == Piece::Occupied(PieceKind::King, col)
}

/// The king of color `col` stands on a square attacked by the other color.
pub open spec fn in_check(m: BoardModel, col: Color) -> bool {
    let i = king_index(m.squares, col);
    square_attacked(m, i / 8, i % 8, col)
}

/// The board after the bare piece movement of a move from (`fr`, `fc`) to
/// (`tr`, `tc`): destination overwritten, origin cleared, the skipped pawn
/// removed on an en-passant capture, and the rook relocated on castling.
pub open spec fn squares_after(m: BoardModel, fr: int, fc: int, tr: int, tc: int) -> Seq<Piece> {
    let p = at(m.squares, fr, fc);
    let s1 = m.squares.update(tr * 8 + tc, p).update(fr * 8 + fc, Piece::Empty);
    let s2 = if (p matches Piece::Occupied(PieceKind::Pawn, _)) && ep_is(m.ep, tr, tc) {
        s1.update(fr * 8 + tc, Piece::Empty)
    } else {
        s1
    };
    match p {
        Piece::Occupied(PieceKind::King, kc) => if tc == fc + 2 {
            s2.update(fr * 8 + 7, Piece::Empty).update(
                fr * 8 + 5,
                Piece::Occupied(PieceKind::Rook, kc),
            )
        } else if tc == fc - 2 {
            s2.update(fr * 8, Piece::Empty).update(
                fr * 8 + 3,
                Piece::Occupied(PieceKind::Rook, kc),
            )
        } else {
            s2
        },
        _ => s2,
    }
}

/// The castling rights after a move: a right stays set unless its king
/// moved, its rook moved off its home square, or its rook was captured on
/// its home square.
pub open spec fn rights_after(m: BoardModel, fr: int, fc: int, tr: int, tc: int) -> CastlingRights {
    let p = at(m.squares, fr, fc);
    let cap = at(m.squares, tr, tc);
    let rook_moved = p matches Piece::Occupied(PieceKind::Rook, _);
    CastlingRights {
        white_kingside: m.rights.white_kingside && p != Piece::Occupied(
            PieceKind::King,
            Color::White,
        ) && !(rook_moved && fr == 0 && fc == 7) && !(cap == Piece::Occupied(
            PieceKind::Rook,
            Color::White,
        ) && tr == 0 && tc == 7),
        white_queenside: m.rights.white_queenside && p != Piece::Occupied(
            PieceKind::King,
            Color::White,
        ) && !(rook_moved && fr == 0 && fc == 0) && !(cap == Piece::Occupied(
            PieceKind::Rook,
            Color::White,
        ) && tr == 0 && tc == 0),
        black_kingside: m.rights.black_kingside && p != Piece::Occupied(
            PieceKind::King,
            Color::Black,
        ) && !(rook_moved && fr == 7 && fc == 7) && !(cap == Piece::Occupied(
            PieceKind::Rook,
            Color::Black,
        ) && tr == 7 && tc == 7),
        black_queenside: m.rights.black_queenside && p != Piece::Occupied(
            PieceKind::King,
            Color::Black,
        ) && !(rook_moved && fr == 7 && fc == 0) && !(cap == Piece::Occupied(
            PieceKind::Rook,
            Color::Black,
        ) && tr == 7 && tc == 0),
    }
}

/// The en-passant target after a move: the square a pawn skipped on a
/// two-rank advance, otherwise none.
pub open spec fn ep_after(m: BoardModel, fr: int, fc: int, tr: int, tc: int) -> Option<Position> {
    let p = at(m.squares, fr, fc);
    if (p matches Piece::Occupied(PieceKind::Pawn, _)) && (tr == fr + 2 || tr == fr - 2) {
        Some(Position { row: ((fr + tr) / 2) as u8, col: fc as u8 })
    } else {
        None
    }
}

/// The half-move clock after a move: reset by any pawn move or capture,
/// otherwise incremented.
pub open spec fn half_after(m: BoardModel, fr: int, fc: int, tr: int, tc: int) -> int {
    let p = at(m.squares, fr, fc);
    let cap = at(m.squares, tr, tc);
    if (p matches Piece::Occupied(PieceKind::Pawn, _)) || !(cap is Empty) {
        0
    } else {
        m.half_moves + 1
    }
}

/// The position after applying the move from (`fr`, `fc`) to (`tr`, `tc`):
/// board movement, rights revocation, en-passant bookkeeping, clock updates,
/// and the side to move flipped. Legality of the pair is the caller's
/// responsibility; this is pure bookkeeping.
pub open spec fn apply_spec(m: BoardModel, fr: int, fc: int, tr: int, tc: int) -> BoardModel {
    BoardModel {
        squares: squares_after(m, fr, fc, tr, tc),
        turn: spec_other(m.turn),
        rights: rights_after(m, fr, fc, tr, tc),
        ep: ep_after(m, fr, fc, tr, tc),
        half_moves: half_after(m, fr, fc, tr, tc),
        full_moves: if m.turn == Color::Black {
            m.full_moves + 1
        } else {
            m.full_moves
        },
    }
}

/// The move from column `fc` to column `tc` by piece `p` is a castling
/// attempt: a king moving two columns sideways.
pub open spec fn castle_intent(p: Piece, fc: int, tc: int) -> bool {
    (p matches Piece::Occupied(PieceKind::King, _)) && (tc == fc + 2 || tc == fc - 2)
}

/// The move from (`fr`, `fc`) to (`tr`, `tc`) is legal: the mover belongs to
/// the side to move, the move is pseudo-legal, the mover's king is not left
/// attacked afterwards, and a castling king neither starts from nor passes
/// through an attacked square.
pub open spec fn legal_target_ok(m: BoardModel, fr: int, fc: int, tr: int, tc: int) -> bool {
    let p = at(m.squares, fr, fc);
    &&& spec_color_of(p) == Some(m.turn)
    &&& pseudo_target_ok(m, fr, fc, tr, tc)
    &&& !in_check(apply_spec(m, fr, fc, tr, tc), m.turn)
    &&& (castle_intent(p, fc, tc) ==> !square_attacked(m, fr, fc, m.turn) && !square_attacked(
        m,
        fr,
        (fc + tc) / 2,
        m.turn,
    ))
}

/// The side to move has at least one legal move.
pub open spec fn any_legal_move(m: BoardModel) -> bool {
    exists|fr: int, fc: int, tr: int, tc: int| #[trigger] legal_target_ok(m, fr, fc, tr, tc)
}

/// The side to move has no legal move and its king is attacked. An empty
/// move list while not in check is stalemate, which is deliberately not
/// labelled here.
pub open spec fn checkmate(m: BoardModel) -> bool {
    !any_legal_move(m) && in_check(m, m.turn)
}

/// The en-passant target, when present, has the shape left by a double pawn
/// push of the side that just moved: the skipped square is empty and on the
/// correct rank, and the pushed pawn stands beyond it.
pub open spec fn ep_wf(m: BoardModel) -> bool {
    match m.ep {
        None => true,
        Some(t) => {
            let pushed = spec_other(m.turn);
            &&& t.col < 8
            &&& t.row == (if m.turn == Color::White {
                5int
            } else {
                2int
            })
            &&& at(m.squares, t.row + forward(pushed), t.col as int) == Piece::Occupied(
                PieceKind::Pawn,
                pushed,
            )
            &&& at(m.squares, t.row as int, t.col as int) is Empty
        },
    }
}

/// A structurally sound position: 64 squares, exactly one king of each
/// color, and a well-shaped en-passant target.
pub open spec fn model_wf(m: BoardModel) -> bool {
    &&& m.squares.len() == 64
    &&& has_king(m.squares, Color::White)
    &&& king_unique(m.squares, Color::White)
    &&& has_king(m.squares, Color::Black)
    &&& king_unique(m.squares, Color::Black)
    &&& ep_wf(m)
}

/// A slide that reaches its target ends on the board and never on a
/// same-color piece.
pub proof fn lemma_slide_target(
    s: Seq<Piece>,
    p: Piece,
    r: int,
    c: int,
    dr: int,
    dc: int,
    tr: int,
    tc: int,
)
    requires
        slide_reaches(s, p, r, c, dr, dc, tr, tc),
    ensures
        in_bounds(tr, tc),
        !spec_same_color(p, at(s, tr, tc)),
    decreases
            (if dr > 0 {
                7 - r
            } else if dr < 0 {
                r
            } else if dc > 0 {
                7 - c
            } else {
                c
            }),
{
    let nr = r + dr;
    let nc = c + dc;
    if nr == tr && nc == tc {
    } else {
        lemma_slide_target(s, p, nr, nc, dr, dc, tr, tc);
    }
}

/// A pseudo-legal move always ends on the board and never on a square
/// holding a same-color piece. (For a pawn aiming at the en-passant target
/// this rests on the target square being empty, which `ep_wf` guarantees.)
pub proof fn lemma_pseudo_target_props(m: BoardModel, fr: int, fc: int, tr: int, tc: int)
    requires
        pseudo_target_ok(m, fr, fc, tr, tc),
        ep_wf(m),
        m.squares.len() == 64,
    ensures
        in_bounds(tr, tc),
        !spec_same_color(at(m.squares, fr, fc), at(m.squares, tr, tc)),
{
    let s = m.squares;
    let p = at(s, fr, fc);
    match p {
        Piece::Empty => {},
        Piece::Occupied(k, col) => match k {
            PieceKind::Pawn => {},
            PieceKind::Knight => {},
            PieceKind::King => {},
            PieceKind::Rook => {
                if slide_reaches(s, p, fr, fc, 0, 1, tr, tc) {
                    lemma_slide_target(s, p, fr, fc, 0, 1, tr, tc);
                } else if slide_reaches(s, p, fr, fc, 0, -1, tr, tc) {
                    lemma_slide_target(s, p, fr, fc, 0, -1, tr, tc);
                } else if slide_reaches(s, p, fr, fc, 1, 0, tr, tc) {
                    lemma_slide_target(s, p, fr, fc, 1, 0, tr, tc);
                } else {
                    lemma_slide_target(s, p, fr, fc, -1, 0, tr, tc);
                }
            },
            PieceKind::Bishop => {
                if slide_reaches(s, p, fr, fc, 1, 1, tr, tc) {
                    lemma_slide_target(s, p, fr, fc, 1, 1, tr, tc);
                } else if slide_reaches(s, p, fr, fc, 1, -1, tr, tc) {
                    lemma_slide_target(s, p, fr, fc, 1, -1, tr, tc);
                } else if slide_reaches(s, p, fr, fc, -1, 1, tr, tc) {
                    lemma_slide_target(s, p, fr, fc, -1, 1, tr, tc);
                } else {
                    lemma_slide_target(s, p, fr, fc, -1, -1, tr, tc);
                }
            },
            PieceKind::Queen => {
                if slide_reaches(s, p, fr, fc, 0, 1, tr, tc) {
                    lemma_slide_target(s, p, fr, fc, 0, 1, tr, tc);
                } else if slide_reaches(s, p, fr, fc, 0, -1, tr, tc) {
                    lemma_slide_target(s, p, fr, fc, 0, -1, tr, tc);
                } else if slide_reaches(s, p, fr, fc, 1, 0, tr, tc) {
                    lemma_slide_target(s, p, fr, fc, 1, 0, tr, tc);
                } else if slide_reaches(s, p, fr, fc, -1, 0, tr, tc) {
                    lemma_slide_target(s, p, fr, fc, -1, 0, tr, tc);
                } else if slide_reaches(s, p, fr, fc, 1, 1, tr, tc) {
                    lemma_slide_target(s, p, fr, fc, 1, 1, tr, tc);
                } else if slide_reaches(s, p, fr, fc, 1, -1, tr, tc) {
                    lemma_slide_target(s, p, fr, fc, 1, -1, tr, tc);
                } else if slide_reaches(s, p, fr, fc, -1, 1, tr, tc) {
                    lemma_slide_target(s, p, fr, fc, -1, 1, tr, tc);
                } else {
                    lemma_slide_target(s, p, fr, fc, -1, -1, tr, tc);
                }
            },
        },
    }
}

/// Applying a pseudo-legal move of the side to move leaves exactly one king
/// of that side on the board: the successor can always be queried for
/// check.
pub proof fn lemma_apply_keeps_mover_king(m: BoardModel, fr: int, fc: int, tr: int, tc: int)
    requires
        model_wf(m),
        spec_color_of(at(m.squares, fr, fc)) == Some(m.turn),
        pseudo_target_ok(m, fr, fc, tr, tc),
    ensures
        has_king(squares_after(m, fr, fc, tr, tc), m.turn),
        king_unique(squares_after(m, fr, fc, tr, tc), m.turn),
{
    let s = m.squares;
    let p = at(s, fr, fc);
    let s2 = squares_after(m, fr, fc, tr, tc);
    let king = Piece::Occupied(PieceKind::King, m.turn);
    let fi = fr * 8 + fc;
    let ti = tr * 8 + tc;
    lemma_pseudo_target_props(m, fr, fc, tr, tc);
    assert(at(s, tr, tc) != king);
    if p == king {
        assert(s2[ti] == king);
        assert forall|i: int| 0 <= i < 64 && s2[i] == king implies i == ti by {
            if i != ti && i != fi {
                assert(s2[i] == s[i] || s2[i] is Empty || s2[i] == Piece::Occupied(
                    PieceKind::Rook,
                    m.turn,
                ));
            }
        }
    } else {
        let ki = choose|i: int| 0 <= i < 64 && s[i] == king;
        assert(s[ki] == king);
        assert(s[fi] == p);
        assert(ki != fi);
        assert(ki != ti);
        if (p matches Piece::Occupied(PieceKind::Pawn, _)) && ep_is(m.ep, tr, tc) {
            let t = m.ep.unwrap();
            let pushed = spec_other(m.turn);
            assert(at(s, t.row + forward(pushed), t.col as int) == Piece::Occupied(
                PieceKind::Pawn,
                pushed,
            ));
            assert(tr == fr + forward(m.turn));
            assert(fr == t.row + forward(pushed));
            assert(s[fr * 8 + tc] == Piece::Occupied(PieceKind::Pawn, pushed));
            assert(ki != fr * 8 + tc);
        }
        assert(s2[ki] == king);
        assert forall|i: int| 0 <= i < 64 && s2[i] == king implies i == ki by {
            assert(s2[i] == s[i] || s2[i] is Empty || s2[i] == p);
        }
    }
}

} // verus!
