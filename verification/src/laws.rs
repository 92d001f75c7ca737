use vstd::prelude::*;
use crate::piece::{Piece, PieceKind, spec_same_color};
use crate::square::Position;
use crate::rules::{
    at, in_bounds, BoardModel, pseudo_target_ok, slide_reaches, apply_spec, ep_is, ep_wf,
    castle_intent, lemma_pseudo_target_props,
};

verus! {

/// Pseudo-legal moves never target a square holding a same-color piece,
/// whatever the piece and wherever it stands. (For a pawn aiming at the
/// en-passant target this rests on that target square being empty, which
/// every position shaped by a real double push satisfies.)
pub proof fn lemma_no_own_capture(m: BoardModel, fr: int, fc: int, tr: int, tc: int)
    requires
        m.squares.len() == 64,
        ep_wf(m),
        pseudo_target_ok(m, fr, fc, tr, tc),
    ensures
        !spec_same_color(at(m.squares, fr, fc), at(m.squares, tr, tc)),
{
    lemma_pseudo_target_props(m, fr, fc, tr, tc);
}

/// Sliding generation never jumps an occupied square: every square a slide
/// reaches lies some `k` steps along its direction, every strictly
/// intermediate square is empty, and the walk stops at the first occupied
/// square, which is offered only when it is not a same-color piece (a
/// capture, for an occupied mover).
pub proof fn lemma_slide_no_jump(
    s: Seq<Piece>,
    p: Piece,
    r: int,
    c: int,
    dr: int,
    dc: int,
    tr: int,
    tc: int,
) -> (k: int)
    requires
        slide_reaches(s, p, r, c, dr, dc, tr, tc),
    ensures
        1 <= k,
        tr == r + k * dr,
        tc == c + k * dc,
        forall|j: int| 1 <= j < k ==> #[trigger] at(s, r + j * dr, c + j * dc) is Empty,
        in_bounds(tr, tc),
        !spec_same_color(p, at(s, tr, tc)),
    decreases
            (if dr > 0 {
                7 - r
            } else if dr < 0 {
                r
            } else if dc > 0 {
                7 - c
            } else {
                c
            }),
{
    let nr = r + dr;
    let nc = c + dc;
    if nr == tr && nc == tc {
        assert(tr == r + 1 * dr);
        assert(tc == c + 1 * dc);
        1
    } else {
        let k0 = lemma_slide_no_jump(s, p, nr, nc, dr, dc, tr, tc);
        let k = k0 + 1;
        assert((k0 + 1) * dr == k0 * dr + dr) by (nonlinear_arith);
        assert((k0 + 1) * dc == k0 * dc + dc) by (nonlinear_arith);
        assert forall|j: int| 1 <= j < k implies #[trigger] at(s, r + j * dr, c + j * dc) is Empty by {
            if j == 1 {
                assert(r + 1 * dr == nr);
                assert(c + 1 * dc == nc);
            } else {
                assert(at(s, nr + (j - 1) * dr, nc + (j - 1) * dc) is Empty);
                assert(j * dr == dr + (j - 1) * dr) by (nonlinear_arith);
                assert(j * dc == dc + (j - 1) * dc) by (nonlinear_arith);
            }
        }
        k
    }
}

/// Applying a move and then the reverse pair of squares restores the board
/// contents in the plain case: the destination started empty, the move was
/// not an en-passant capture and not a castling king move. The whole
/// Position is nevertheless never restored: the full-move clock has
/// advanced by one, and castling rights, the en-passant target and the
/// clocks are one-directional in general.
pub proof fn lemma_apply_reverse_board_only(m: BoardModel, fr: int, fc: int, tr: int, tc: int)
    requires
        m.squares.len() == 64,
        in_bounds(fr, fc),
        in_bounds(tr, tc),
        !(fr == tr && fc == tc),
        at(m.squares, tr, tc) is Empty,
        !((at(m.squares, fr, fc) matches Piece::Occupied(PieceKind::Pawn, _)) && ep_is(
            m.ep,
            tr,
            tc,
        )),
        !castle_intent(at(m.squares, fr, fc), fc, tc),
    ensures
        apply_spec(apply_spec(m, fr, fc, tr, tc), tr, tc, fr, fc).squares =~= m.squares,
        apply_spec(apply_spec(m, fr, fc, tr, tc), tr, tc, fr, fc).turn == m.turn,
        apply_spec(apply_spec(m, fr, fc, tr, tc), tr, tc, fr, fc).full_moves == m.full_moves + 1,
        apply_spec(apply_spec(m, fr, fc, tr, tc), tr, tc, fr, fc) != m,
{
    let p = at(m.squares, fr, fc);
    let fi = fr * 8 + fc;
    let ti = tr * 8 + tc;
    let m1 = apply_spec(m, fr, fc, tr, tc);
    assert(fi != ti);
    assert(m1.squares == m.squares.update(ti, p).update(fi, Piece::Empty));
    assert(at(m1.squares, tr, tc) == p);
    assert(at(m1.squares, fr, fc) is Empty);
    let m2 = apply_spec(m1, tr, tc, fr, fc);
    assert(!((p matches Piece::Occupied(PieceKind::Pawn, _)) && ep_is(m1.ep, fr, fc)));
    assert(!castle_intent(p, tc, fc));
    assert(m2.squares == m1.squares.update(fi, p).update(ti, Piece::Empty));
    assert(m2.squares =~= m.squares);
    assert(m2.full_moves == m.full_moves + 1);
}

/// After a double pawn push the successor's en-passant target is exactly
/// the square the pawn skipped; after any other move the target reverts to
/// none.
pub proof fn lemma_en_passant_lifecycle(m: BoardModel, fr: int, fc: int, tr: int, tc: int)
    ensures
        ((at(m.squares, fr, fc) matches Piece::Occupied(PieceKind::Pawn, _)) && (tr == fr + 2 || tr
            == fr - 2)) ==> apply_spec(m, fr, fc, tr, tc).ep == Some(
            (Position { row: ((fr + tr) / 2) as u8, col: fc as u8 }),
        ),
        !((at(m.squares, fr, fc) matches Piece::Occupied(PieceKind::Pawn, _)) && (tr == fr + 2 || tr
            == fr - 2)) ==> apply_spec(m, fr, fc, tr, tc).ep is None,
{
}

} // verus!
