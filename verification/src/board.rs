use vstd::prelude::*;
use vstd::pervasive::VecAdditionalExecFns;
use crate::piece::{
    Color, Piece, PieceKind, spec_color_of, spec_opposite_color, spec_other, spec_same_color,
    is_opposite_color, is_piece_white, is_same_color, other_color,
};
use crate::square::Position;
use crate::rules::{
    at, in_bounds, BoardModel, CastlingRights, pawn_home_row, forward, pawn_target_ok,
    knight_target_ok, slide_reaches, rook_target_ok, bishop_target_ok, queen_target_ok,
    king_target_ok, pseudo_target_ok, square_attacked, has_king, king_unique, king_index,
    in_check, apply_spec, squares_after, ep_is, legal_target_ok, any_legal_move, checkmate,
    model_wf, lemma_pseudo_target_props, lemma_apply_keeps_mover_king,
};

verus! {

broadcast use vstd::seq_lib::lemma_seq_contains_after_push;

/// Pushing a fresh element onto a duplicate-free sequence keeps it
/// duplicate-free.
proof fn lemma_push_no_duplicates<A>(s: Seq<A>, x: A)
    requires
        s.no_duplicates(),
        !s.contains(x),
    ensures
        s.push(x).no_duplicates(),
{
    assert forall|i: int, j: int|
        0 <= i < s.push(x).len() && 0 <= j < s.push(x).len() && i != j implies s.push(x)[i]
        != s.push(x)[j] by {
        if i == s.len() {
            assert(s.push(x)[j] == s[j]);
        } else if j == s.len() {
            assert(s.push(x)[i] == s[i]);
        }
    }
}

/// One chess position: the 64-square board (row major, index = row * 8 +
/// col), the side to move, castling rights, the en-passant target, and the
/// half- and full-move clocks. Positions are immutable values: every
/// transition builds a new one.
pub struct BoardState {
    pub board: Vec<Piece>,
    pub color_to_move: Color,
    pub castling_rights: CastlingRights,
    pub en_passant_square: Option<Position>,
    pub half_move_clock: u32,
    pub full_move_clock: u32,
}

impl View for BoardState {
    type V = BoardModel;

    open spec fn view(&self) -> BoardModel {
        BoardModel {
            squares: self.board@,
            turn: self.color_to_move,
            rights: self.castling_rights,
            ep: self.en_passant_square,
            half_moves: self.half_move_clock as int,
            full_moves: self.full_move_clock as int,
        }
    }
}

impl BoardState {
    /// The piece on `position`. The square must lie on the board; bounds are
    /// guarded at every call site before any board lookup.
    pub fn get_piece_at_position(&self, position: Position) -> (p: Piece)
        requires
            self@.squares.len() == 64,
            position.wf(),
        ensures
            p == at(self@.squares, position.row as int, position.col as int),
    {
        let i = Position::index_from_position(position);
        self.board[i]
    }

    /// A fresh copy of the board squares.
    fn copy_board(&self) -> (b: Vec<Piece>)
        ensures
            b@ == self.board@,
    {
        let mut b: Vec<Piece> = Vec::new();
        let n = self.board.len();
        for i in 0..n
            invariant
                n == self.board@.len(),
                b@ == self.board@.subrange(0, i as int),
        {
            b.push(self.board[i]);
            proof {
                assert(b@ =~= self.board@.subrange(0, i + 1));
            }
        }
        proof {
            assert(b@ =~= self.board@);
        }
        b
    }

    /// A copy of this position with `new_piece` on `position` and everything
    /// else unchanged.
    pub fn set_piece_at_position(&self, position: Position, new_piece: Piece) -> (r: BoardState)
        requires
            self@.squares.len() == 64,
            position.wf(),
        ensures
            r@ == (BoardModel {
                squares: self@.squares.update(position.idx(), new_piece),
                ..self@
            }),
    {
        let mut new_board = self.copy_board();
        let i = Position::index_from_position(position);
        new_board.set(i, new_piece);
        BoardState {
            board: new_board,
            color_to_move: self.color_to_move,
            castling_rights: self.castling_rights,
            en_passant_square: self.en_passant_square,
            half_move_clock: self.half_move_clock,
            full_move_clock: self.full_move_clock,
        }
    }

    /// Appends (`tr`, `tc`) to `v` when it lies on the board and does not
    /// hold a piece of the same color as `piece`; otherwise leaves `v`
    /// unchanged.
    fn push_candidate(&self, v: &mut Vec<Position>, piece: Piece, tr: i16, tc: i16)
        requires
            self@.squares.len() == 64,
        ensures
            forall|t: Position|
                final(v)@.contains(t) <==> (old(v)@.contains(t) || (in_bounds(
                    tr as int,
                    tc as int,
                ) && !spec_same_color(piece, at(self@.squares, tr as int, tc as int)) && t == (
                Position { row: tr as u8, col: tc as u8 }))),
            old(v)@.no_duplicates() && !old(v)@.contains(
                (Position { row: tr as u8, col: tc as u8 }),
            ) ==> final(v)@.no_duplicates(),
            !(in_bounds(tr as int, tc as int) && !spec_same_color(
                piece,
                at(self@.squares, tr as int, tc as int),
            )) ==> final(v)@ == old(v)@,
    {
        if 0 <= tr && tr < 8 && 0 <= tc && tc < 8 {
            let t = Position { row: tr as u8, col: tc as u8 };
            let q = self.get_piece_at_position(t);
            if !is_same_color(piece, q) {
                proof {
                    if old(v)@.no_duplicates() && !old(v)@.contains(t) {
                        lemma_push_no_duplicates(old(v)@, t);
                    }
                }
                v.push(t);
            }
        }
    }

    /// The pseudo-legal knight moves from `position`: each of the eight
    /// jumps that stays on the board and does not land on a same-color
    /// piece.
    pub fn get_knight_moves(&self, position: Position) -> (r: Vec<Position>)
        requires
            self@.squares.len() == 64,
            position.wf(),
        ensures
            forall|t: Position|
                r@.contains(t) <==> knight_target_ok(
                    self@,
                    position.row as int,
                    position.col as int,
                    t.row as int,
                    t.col as int,
                ),
            r@.no_duplicates(),
    {
        let piece = self.get_piece_at_position(position);
        let fr = position.row as i16;
        let fc = position.col as i16;
        let mut v: Vec<Position> = Vec::new();
        self.push_candidate(&mut v, piece, fr + 2, fc + 1);
        self.push_candidate(&mut v, piece, fr + 2, fc - 1);
        self.push_candidate(&mut v, piece, fr - 2, fc + 1);
        self.push_candidate(&mut v, piece, fr - 2, fc - 1);
        self.push_candidate(&mut v, piece, fr + 1, fc + 2);
        self.push_candidate(&mut v, piece, fr + 1, fc - 2);
        self.push_candidate(&mut v, piece, fr - 1, fc + 2);
        self.push_candidate(&mut v, piece, fr - 1, fc - 2);
        v
    }

    /// The pseudo-legal pawn moves from `position`, which must hold a pawn:
    /// forward pushes onto empty squares (two from the home rank) and
    /// diagonal captures onto enemy pieces or the en-passant target.
    pub fn get_pawn_moves(&self, position: Position) -> (r: Vec<Position>)
        requires
            self@.squares.len() == 64,
            position.wf(),
            at(self@.squares, position.row as int, position.col as int) matches Piece::Occupied(
                PieceKind::Pawn,
                _,
            ),
        ensures
            forall|t: Position|
                r@.contains(t) <==> pawn_target_ok(
                    self@,
                    position.row as int,
                    position.col as int,
                    t.row as int,
                    t.col as int,
                    spec_color_of(
                        at(self@.squares, position.row as int, position.col as int),
                    ).unwrap(),
                ),
            r@.no_duplicates(),
    {
        let piece = self.get_piece_at_position(position);
        let white = is_piece_white(piece);
        let dir: i16 = if white {
            1
        } else {
            -1
        };
        let home: u8 = if white {
            1
        } else {
            6
        };
        let fr = position.row as i16;
        let fc = position.col as i16;
        let mut v: Vec<Position> = Vec::new();
        let one = fr + dir;
        if 0 <= one && one < 8 {
            let t1 = Position { row: one as u8, col: position.col };
            if matches!(self.get_piece_at_position(t1), Piece::Empty) {
                v.push(t1);
                if position.row == home {
                    let two = fr + 2 * dir;
                    let t2 = Position { row: two as u8, col: position.col };
                    if matches!(self.get_piece_at_position(t2), Piece::Empty) {
                        proof {
                            if !v@.contains(t2) {
                                lemma_push_no_duplicates(v@, t2);
                            }
                        }
                        v.push(t2);
                    }
                }
            }
            let ghost pc = spec_color_of(piece).unwrap();
            let mut side: i16 = -1;
            while side <= 1
                invariant
                    side == -1 || side == 1 || side == 3,
                    forall|t: Position|
                        v@.contains(t) <==> (pawn_push_candidate(
                            self@,
                            position.row as int,
                            position.col as int,
                            t.row as int,
                            t.col as int,
                            pc,
                        ) || (pawn_capture_candidate(
                            self@,
                            position.row as int,
                            position.col as int,
                            t.row as int,
                            t.col as int,
                            pc,
                        ) && (side == 1 ==> t.col < position.col) && side != -1)),
                    v@.no_duplicates(),
                decreases 3 - side,
            {
                let tc = fc + side;
                if 0 <= tc && tc < 8 {
                    let t = Position { row: one as u8, col: tc as u8 };
                    let q = self.get_piece_at_position(t);
                    let is_ep = match self.en_passant_square {
                        Some(e) => e == t,
                        None => false,
                    };
                    if is_opposite_color(piece, q) || is_ep {
                        proof {
                            if !v@.contains(t) {
                                lemma_push_no_duplicates(v@, t);
                            }
                        }
                        v.push(t);
                    }
                }
                side = side + 2;
            }
        }
        v
    }
}

/// True exactly when `v` holds the square `t`.
pub fn contains_square(v: &Vec<Position>, t: Position) -> (r: bool)
    ensures
        r == v@.contains(t),
{
    let n = v.len();
    let mut i: usize = 0;
    while i < n
        invariant
            i <= n,
            forall|j: int| 0 <= j < i ==> v@[j] != t,
        decreases n - i,
    {
        if v[i] == t {
            assert(v@[i as int] == t);
            return true;
        }
        i = i + 1;
    }
    false
}

impl BoardState {
    /// Walks from `position` in direction (`dr`, `dc`) and appends every
    /// square the slide reaches: empty squares until the first occupied one,
    /// included only as a capture.
    fn walk_direction(&self, v: &mut Vec<Position>, piece: Piece, position: Position, dr: i16, dc: i16)
        requires
            self@.squares.len() == 64,
            position.wf(),
            piece == at(self@.squares, position.row as int, position.col as int),
            -1 <= dr <= 1,
            -1 <= dc <= 1,
            !(dr == 0 && dc == 0),
        ensures
            forall|t: Position|
                final(v)@.contains(t) <==> (old(v)@.contains(t) || slide_reaches(
                    self@.squares,
                    piece,
                    position.row as int,
                    position.col as int,
                    dr as int,
                    dc as int,
                    t.row as int,
                    t.col as int,
                )),
            old(v)@.no_duplicates() ==> final(v)@.no_duplicates(),
    {
        let ghost s = self@.squares;
        let ghost fr = position.row as int;
        let ghost fc = position.col as int;
        let mut cr = position.row as i16;
        let mut cc = position.col as i16;
        #[verifier::loop_isolation(true)]
        loop
            invariant
                s == self@.squares,
                s.len() == 64,
                fr == position.row as int,
                fc == position.col as int,
                -1 <= dr <= 1,
                -1 <= dc <= 1,
                !(dr == 0 && dc == 0),
                in_bounds(cr as int, cc as int),
                forall|t: Position|
                    (v@.contains(t) || slide_reaches(
                        s,
                        piece,
                        cr as int,
                        cc as int,
                        dr as int,
                        dc as int,
                        t.row as int,
                        t.col as int,
                    )) <==> (old(v)@.contains(t) || slide_reaches(
                        s,
                        piece,
                        fr,
                        fc,
                        dr as int,
                        dc as int,
                        t.row as int,
                        t.col as int,
                    )),
                old(v)@.no_duplicates() ==> v@.no_duplicates(),
            ensures
                forall|t: Position|
                    v@.contains(t) <==> (old(v)@.contains(t) || slide_reaches(
                        s,
                        piece,
                        fr,
                        fc,
                        dr as int,
                        dc as int,
                        t.row as int,
                        t.col as int,
                    )),
                old(v)@.no_duplicates() ==> v@.no_duplicates(),
            decreases (if dr > 0 {
                7 - cr as int
            } else if dr < 0 {
                cr as int
            } else if dc > 0 {
                7 - cc as int
            } else {
                cc as int
            }),
        {
            let tr = cr + dr;
            let tc = cc + dc;
            if !(0 <= tr && tr < 8 && 0 <= tc && tc < 8) {
                break;
            }
            let t = Position { row: tr as u8, col: tc as u8 };
            let q = self.get_piece_at_position(t);
            if is_same_color(piece, q) {
                break;
            }
            if !contains_square(v, t) {
                proof {
                    if v@.no_duplicates() {
                        lemma_push_no_duplicates(v@, t);
                    }
                }
                v.push(t);
            }
            if !matches!(q, Piece::Empty) {
                break;
            }
            cr = tr;
            cc = tc;
        }
    }

    /// The pseudo-legal sliding moves from `position`: the four diagonal
    /// directions when `diagonal` is set, otherwise the four orthogonal
    /// ones.
    pub fn get_sliding_moves(&self, position: Position, diagonal: bool) -> (r: Vec<Position>)
        requires
            self@.squares.len() == 64,
            position.wf(),
        ensures
            diagonal ==> (forall|t: Position|
                r@.contains(t) <==> bishop_target_ok(
                    self@,
                    position.row as int,
                    position.col as int,
                    t.row as int,
                    t.col as int,
                )),
            !diagonal ==> (forall|t: Position|
                r@.contains(t) <==> rook_target_ok(
                    self@,
                    position.row as int,
                    position.col as int,
                    t.row as int,
                    t.col as int,
                )),
            r@.no_duplicates(),
    {
        let piece = self.get_piece_at_position(position);
        let mut v: Vec<Position> = Vec::new();
        if diagonal {
            self.walk_direction(&mut v, piece, position, 1, 1);
            self.walk_direction(&mut v, piece, position, 1, -1);
            self.walk_direction(&mut v, piece, position, -1, 1);
            self.walk_direction(&mut v, piece, position, -1, -1);
        } else {
            self.walk_direction(&mut v, piece, position, 0, 1);
            self.walk_direction(&mut v, piece, position, 0, -1);
            self.walk_direction(&mut v, piece, position, 1, 0);
            self.walk_direction(&mut v, piece, position, -1, 0);
        }
        v
    }

    /// The pseudo-legal rook moves from `position`.
    pub fn get_rook_moves(&self, position: Position) -> (r: Vec<Position>)
        requires
            self@.squares.len() == 64,
            position.wf(),
        ensures
            forall|t: Position|
                r@.contains(t) <==> rook_target_ok(
                    self@,
                    position.row as int,
                    position.col as int,
                    t.row as int,
                    t.col as int,
                ),
            r@.no_duplicates(),
    {
        self.get_sliding_moves(position, false)
    }

    /// The pseudo-legal bishop moves from `position`.
    pub fn get_bishop_moves(&self, position: Position) -> (r: Vec<Position>)
        requires
            self@.squares.len() == 64,
            position.wf(),
        ensures
            forall|t: Position|
                r@.contains(t) <==> bishop_target_ok(
                    self@,
                    position.row as int,
                    position.col as int,
                    t.row as int,
                    t.col as int,
                ),
            r@.no_duplicates(),
    {
        self.get_sliding_moves(position, true)
    }

    /// The pseudo-legal queen moves from `position`: the diagonal slides
    /// followed by the orthogonal ones.
    pub fn get_queen_moves(&self, position: Position) -> (r: Vec<Position>)
        requires
            self@.squares.len() == 64,
            position.wf(),
        ensures
            forall|t: Position|
                r@.contains(t) <==> queen_target_ok(
                    self@,
                    position.row as int,
                    position.col as int,
                    t.row as int,
                    t.col as int,
                ),
            r@.no_duplicates(),
    {
        let mut moves = self.get_sliding_moves(position, true);
        let more = self.get_sliding_moves(position, false);
        let n = more.len();
        let mut i: usize = 0;
        while i < n
            invariant
                i <= n,
                forall|x: Position|
                    moves@.contains(x) <==> (bishop_target_ok(
                        self@,
                        position.row as int,
                        position.col as int,
                        x.row as int,
                        x.col as int,
                    ) || more@.subrange(0, i as int).contains(x)),
                moves@.no_duplicates(),
            decreases n - i,
        {
            let t = more[i];
            proof {
                assert(more@.subrange(0, i + 1) =~= more@.subrange(0, i as int).push(more@[i as int]));
            }
            if !contains_square(&moves, t) {
                proof {
                    lemma_push_no_duplicates(moves@, t);
                }
                moves.push(t);
            }
            i = i + 1;
        }
        proof {
            assert(more@.subrange(0, n as int) =~= more@);
        }
        moves
    }
}

impl BoardState {
    /// The pseudo-legal king moves from `position`, which must hold a king:
    /// one step in each of the eight directions, plus the castling moves
    /// whose right is set and whose path between king and rook is empty.
    /// Attack checks on the king's path are deferred to the legality filter.
    pub fn get_king_moves(&self, position: Position) -> (r: Vec<Position>)
        requires
            self@.squares.len() == 64,
            position.wf(),
            at(self@.squares, position.row as int, position.col as int) matches Piece::Occupied(
                PieceKind::King,
                _,
            ),
        ensures
            forall|t: Position|
                r@.contains(t) <==> king_target_ok(
                    self@,
                    position.row as int,
                    position.col as int,
                    t.row as int,
                    t.col as int,
                    spec_color_of(
                        at(self@.squares, position.row as int, position.col as int),
                    ).unwrap(),
                ),
            r@.no_duplicates(),
    {
        let piece = self.get_piece_at_position(position);
        let kc = match piece {
            Piece::Occupied(_, c) => c,
            Piece::Empty => Color::White,
        };
        let fr = position.row as i16;
        let fc = position.col as i16;
        let mut v: Vec<Position> = Vec::new();
        self.push_candidate(&mut v, piece, fr - 1, fc - 1);
        self.push_candidate(&mut v, piece, fr - 1, fc);
        self.push_candidate(&mut v, piece, fr - 1, fc + 1);
        self.push_candidate(&mut v, piece, fr, fc - 1);
        self.push_candidate(&mut v, piece, fr, fc + 1);
        self.push_candidate(&mut v, piece, fr + 1, fc - 1);
        self.push_candidate(&mut v, piece, fr + 1, fc);
        self.push_candidate(&mut v, piece, fr + 1, fc + 1);
        let home: u8 = if matches!(kc, Color::White) {
            0
        } else {
            7
        };
        if position.row == home && position.col == 4 {
            let kingside = if matches!(kc, Color::White) {
                self.castling_rights.white_kingside
            } else {
                self.castling_rights.black_kingside
            };
            let queenside = if matches!(kc, Color::White) {
                self.castling_rights.white_queenside
            } else {
                self.castling_rights.black_queenside
            };
            if kingside {
                let f1 = self.get_piece_at_position(Position { row: home, col: 5 });
                let g1 = self.get_piece_at_position(Position { row: home, col: 6 });
                if matches!(f1, Piece::Empty) && matches!(g1, Piece::Empty) {
                    let t = Position { row: home, col: 6 };
                    proof {
                        if !v@.contains(t) {
                            lemma_push_no_duplicates(v@, t);
                        }
                    }
                    v.push(t);
                }
            }
            if queenside {
                let b1 = self.get_piece_at_position(Position { row: home, col: 1 });
                let c1 = self.get_piece_at_position(Position { row: home, col: 2 });
                let d1 = self.get_piece_at_position(Position { row: home, col: 3 });
                if matches!(b1, Piece::Empty) && matches!(c1, Piece::Empty) && matches!(
                    d1,
                    Piece::Empty,
                ) {
                    let t = Position { row: home, col: 2 };
                    proof {
                        if !v@.contains(t) {
                            lemma_push_no_duplicates(v@, t);
                        }
                    }
                    v.push(t);
                }
            }
        }
        v
    }

    /// The pseudo-legal moves of the piece on `position`, disregarding
    /// whether the mover's own king is left attacked. An empty square offers
    /// no moves.
    pub fn get_piece_moves_disregarding_checks(&self, position: Position) -> (r: Vec<Position>)
        requires
            self@.squares.len() == 64,
            position.wf(),
        ensures
            forall|t: Position|
                r@.contains(t) <==> pseudo_target_ok(
                    self@,
                    position.row as int,
                    position.col as int,
                    t.row as int,
                    t.col as int,
                ),
            r@.no_duplicates(),
    {
        let piece = self.get_piece_at_position(position);
        match piece {
            Piece::Empty => Vec::new(),
            Piece::Occupied(PieceKind::Pawn, _) => self.get_pawn_moves(position),
            Piece::Occupied(PieceKind::Rook, _) => self.get_rook_moves(position),
            Piece::Occupied(PieceKind::Knight, _) => self.get_knight_moves(position),
            Piece::Occupied(PieceKind::Bishop, _) => self.get_bishop_moves(position),
            Piece::Occupied(PieceKind::Queen, _) => self.get_queen_moves(position),
            Piece::Occupied(PieceKind::King, _) => self.get_king_moves(position),
        }
    }

    /// Whether any piece of the color opposing `defender` has a pseudo-legal
    /// move onto `position_to_be_checked`: every square is scanned and its
    /// pseudo-legal moves examined.
    pub fn is_position_attacked(&self, position_to_be_checked: Position, defender: Color) -> (r:
        bool)
        requires
            self@.squares.len() == 64,
            position_to_be_checked.wf(),
        ensures
            r == square_attacked(
                self@,
                position_to_be_checked.row as int,
                position_to_be_checked.col as int,
                defender,
            ),
    {
        let mut row: u8 = 0;
        while row < 8
            invariant
                row <= 8,
                forall|frx: int, fcx: int|
                    in_bounds(frx, fcx) && frx < row && spec_color_of(at(self@.squares, frx, fcx))
                        == Some(spec_other(defender)) ==> !#[trigger] pseudo_target_ok(
                        self@,
                        frx,
                        fcx,
                        position_to_be_checked.row as int,
                        position_to_be_checked.col as int,
                    ),
            decreases 8 - row,
        {
            let mut col: u8 = 0;
            while col < 8
                invariant
                    row < 8,
                    col <= 8,
                    forall|frx: int, fcx: int|
                        in_bounds(frx, fcx) && (frx < row || (frx == row && fcx < col))
                            && spec_color_of(at(self@.squares, frx, fcx)) == Some(
                            spec_other(defender),
                        ) ==> !#[trigger] pseudo_target_ok(
                            self@,
                            frx,
                            fcx,
                            position_to_be_checked.row as int,
                            position_to_be_checked.col as int,
                        ),
                decreases 8 - col,
            {
                let sq = Position { row, col };
                let p = self.get_piece_at_position(sq);
                let is_enemy = match p {
                    Piece::Occupied(_, c) => !matches!(
                        (c, defender),
                        (Color::White, Color::White) | (Color::Black, Color::Black),
                    ),
                    Piece::Empty => false,
                };
                if is_enemy {
                    let moves = self.get_piece_moves_disregarding_checks(sq);
                    if contains_square(&moves, position_to_be_checked) {
                        return true;
                    }
                }
                col = col + 1;
            }
            row = row + 1;
        }
        false
    }
}

impl BoardState {
    /// Applies the move from `position` to `new_position` and returns the
    /// successor position: board movement, en-passant capture, rook
    /// relocation on castling, rights revocation, clock updates, and the
    /// side to move flipped. Legality of the pair is not re-derived here; it
    /// is the legality filter's responsibility never to offer an illegal
    /// pair.
    pub fn perform_move(&self, position: Position, new_position: Position) -> (r: BoardState)
        requires
            self@.squares.len() == 64,
            position.wf(),
            new_position.wf(),
            self@.turn == Color::Black ==> self@.full_moves < u32::MAX,
            !((at(
                self@.squares,
                position.row as int,
                position.col as int,
            ) matches Piece::Occupied(PieceKind::Pawn, _)) || !(at(
                self@.squares,
                new_position.row as int,
                new_position.col as int,
            ) is Empty)) ==> self@.half_moves < u32::MAX,
        ensures
            r@ == apply_spec(
                self@,
                position.row as int,
                position.col as int,
                new_position.row as int,
                new_position.col as int,
            ),
    {
        let ghost m = self@;
        let ghost fr = position.row as int;
        let ghost fc = position.col as int;
        let ghost tr = new_position.row as int;
        let ghost tc = new_position.col as int;
        let piece = self.get_piece_at_position(position);
        let captured = self.get_piece_at_position(new_position);
        let mut new_state = self.set_piece_at_position(new_position, piece).set_piece_at_position(
            position,
            Piece::Empty,
        );
        let is_pawn = matches!(piece, Piece::Occupied(PieceKind::Pawn, _));
        let ep_capture = is_pawn && match self.en_passant_square {
            Some(e) => e.row == new_position.row && e.col == new_position.col,
            None => false,
        };
        if ep_capture {
            new_state = new_state.set_piece_at_position(
                Position { row: position.row, col: new_position.col },
                Piece::Empty,
            );
        }
        if let Piece::Occupied(PieceKind::King, kcol) = piece {
            if new_position.col == position.col + 2 {
                new_state = new_state.set_piece_at_position(
                    Position { row: position.row, col: 7 },
                    Piece::Empty,
                );
                new_state = new_state.set_piece_at_position(
                    Position { row: position.row, col: 5 },
                    Piece::Occupied(PieceKind::Rook, kcol),
                );
            }
            if position.col >= 2 && new_position.col == position.col - 2 {
                new_state = new_state.set_piece_at_position(
                    Position { row: position.row, col: 0 },
                    Piece::Empty,
                );
                new_state = new_state.set_piece_at_position(
                    Position { row: position.row, col: 3 },
                    Piece::Occupied(PieceKind::Rook, kcol),
                );
            }
        }
        let mut rights = self.castling_rights;
        if piece == (Piece::Occupied(PieceKind::King, Color::White)) {
            rights.white_kingside = false;
            rights.white_queenside = false;
        }
        if piece == (Piece::Occupied(PieceKind::King, Color::Black)) {
            rights.black_kingside = false;
            rights.black_queenside = false;
        }
        if matches!(piece, Piece::Occupied(PieceKind::Rook, _)) {
            if position.row == 0 && position.col == 0 {
                rights.white_queenside = false;
            }
            if position.row == 0 && position.col == 7 {
                rights.white_kingside = false;
            }
            if position.row == 7 && position.col == 0 {
                rights.black_queenside = false;
            }
            if position.row == 7 && position.col == 7 {
                rights.black_kingside = false;
            }
        }
        if captured == (Piece::Occupied(PieceKind::Rook, Color::White)) {
            if new_position.row == 0 && new_position.col == 0 {
                rights.white_queenside = false;
            }
            if new_position.row == 0 && new_position.col == 7 {
                rights.white_kingside = false;
            }
        }
        if captured == (Piece::Occupied(PieceKind::Rook, Color::Black)) {
            if new_position.row == 7 && new_position.col == 0 {
                rights.black_queenside = false;
            }
            if new_position.row == 7 && new_position.col == 7 {
                rights.black_kingside = false;
            }
        }
        new_state.castling_rights = rights;
        let double_push = is_pawn && (new_position.row == position.row + 2 || (position.row >= 2
            && new_position.row == position.row - 2));
        if double_push {
            new_state.en_passant_square = Some(
                Position { row: (position.row + new_position.row) / 2, col: position.col },
            );
        } else {
            new_state.en_passant_square = None;
        }
        if is_pawn || !matches!(captured, Piece::Empty) {
            new_state.half_move_clock = 0;
        } else {
            new_state.half_move_clock = self.half_move_clock + 1;
        }
        if matches!(self.color_to_move, Color::Black) {
            new_state.full_move_clock = self.full_move_clock + 1;
        }
        new_state.color_to_move = other_color(self.color_to_move);
        proof {
            assert(new_state@.squares =~= squares_after(m, fr, fc, tr, tc));
            assert(new_state@ =~= apply_spec(m, fr, fc, tr, tc));
        }
        new_state
    }

    /// Whether the unique king of `color` is attacked by the other color.
    /// A position without that king is corrupted and excluded by the
    /// precondition: it can never arise from this engine's own transitions.
    pub fn is_color_in_check(&self, color: Color) -> (r: bool)
        requires
            self@.squares.len() == 64,
            has_king(self@.squares, color),
            king_unique(self@.squares, color),
        ensures
            r == in_check(self@, color),
    {
        let mut position_index: usize = 0;
        while position_index < 64
            invariant
                position_index <= 64,
                forall|j: int|
                    0 <= j < position_index ==> self@.squares[j] != Piece::Occupied(
                        PieceKind::King,
                        color,
                    ),
            decreases 64 - position_index,
        {
            if self.board[position_index] == (Piece::Occupied(PieceKind::King, color)) {
                let king_position = Position::position_from_indices(position_index);
                proof {
                    let ki = king_index(self@.squares, color);
                    assert(0 <= ki < 64 && self@.squares[ki] == Piece::Occupied(
                        PieceKind::King,
                        color,
                    ));
                    assert(ki == position_index);
                }
                return self.is_position_attacked(king_position, color);
            }
            position_index = position_index + 1;
        }
        proof {
            let i = choose|i: int|
                0 <= i < 64 && self@.squares[i] == Piece::Occupied(PieceKind::King, color);
            assert(false);
        }
        false
    }
}

impl BoardState {
    /// The legal moves of the piece on `position`: empty when the square's
    /// occupant does not belong to the side to move; otherwise the
    /// pseudo-legal moves that do not leave the mover's own king attacked,
    /// with a castling king additionally barred from starting on or passing
    /// through an attacked square.
    pub fn get_piece_moves_respecting_checks(&self, position: Position) -> (r: Vec<Position>)
        requires
            model_wf(self@),
            position.wf(),
            self@.turn == Color::Black ==> self@.full_moves < u32::MAX,
            (at(self@.squares, position.row as int, position.col as int) matches Piece::Occupied(
                PieceKind::Pawn,
                _,
            )) || self@.half_moves < u32::MAX,
        ensures
            forall|t: Position|
                r@.contains(t) <==> legal_target_ok(
                    self@,
                    position.row as int,
                    position.col as int,
                    t.row as int,
                    t.col as int,
                ),
            r@.no_duplicates(),
    {
        let ghost fr = position.row as int;
        let ghost fc = position.col as int;
        let piece = self.get_piece_at_position(position);
        let turn_ok = match piece {
            Piece::Occupied(_, c) => c == self.color_to_move,
            Piece::Empty => false,
        };
        if !turn_ok {
            return Vec::new();
        }
        let pseudo = self.get_piece_moves_disregarding_checks(position);
        let mut result: Vec<Position> = Vec::new();
        let n = pseudo.len();
        let mut i: usize = 0;
        while i < n
            invariant
                i <= n,
                forall|x: Position|
                    result@.contains(x) <==> (pseudo@.subrange(0, i as int).contains(x)
                        && legal_target_ok(self@, fr, fc, x.row as int, x.col as int)),
                result@.no_duplicates(),
            decreases n - i,
        {
            let t = pseudo[i];
            proof {
                assert(pseudo@.contains(t));
            }
            let is_castle = matches!(piece, Piece::Occupied(PieceKind::King, _)) && (t.col
                == position.col + 2 || (position.col >= 2 && t.col == position.col - 2));
            let mut keep = true;
            if is_castle {
                let mid = (position.col + t.col) / 2;
                if self.is_position_attacked(position, self.color_to_move) {
                    keep = false;
                } else if self.is_position_attacked(
                    Position { row: position.row, col: mid },
                    self.color_to_move,
                ) {
                    keep = false;
                }
            }
            if keep {
                proof {
                    lemma_pseudo_target_props(self@, fr, fc, t.row as int, t.col as int);
                    lemma_apply_keeps_mover_king(self@, fr, fc, t.row as int, t.col as int);
                }
                let successor = self.perform_move(position, t);
                proof {
                    assert(successor@.squares.len() == 64);
                }
                if successor.is_color_in_check(self.color_to_move) {
                    keep = false;
                }
            }
            proof {
                assert(pseudo@.subrange(0, i + 1) =~= pseudo@.subrange(0, i as int).push(
                    pseudo@[i as int],
                ));
            }
            if keep {
                proof {
                    if !result@.contains(t) {
                        lemma_push_no_duplicates(result@, t);
                    }
                }
                result.push(t);
            }
            i = i + 1;
        }
        proof {
            assert(pseudo@.subrange(0, n as int) =~= pseudo@);
        }
        result
    }

    /// Every legal move of the side to move, as (origin, destination)
    /// pairs: the squares are visited in increasing row-major order and
    /// each origin's legal destinations are appended in generation order.
    pub fn get_legal_moves(&self) -> (moves: Vec<(Position, Position)>)
        requires
            model_wf(self@),
            self@.turn == Color::Black ==> self@.full_moves < u32::MAX,
            self@.half_moves < u32::MAX,
        ensures
            forall|mv: (Position, Position)|
                moves@.contains(mv) <==> legal_target_ok(
                    self@,
                    mv.0.row as int,
                    mv.0.col as int,
                    mv.1.row as int,
                    mv.1.col as int,
                ),
            moves@.no_duplicates(),
    {
        let mut moves: Vec<(Position, Position)> = Vec::new();
        let mut square: usize = 0;
        while square < 64
            invariant
                square <= 64,
                forall|mv: (Position, Position)|
                    moves@.contains(mv) <==> (mv.0.wf() && mv.0.idx() < square && legal_target_ok(
                        self@,
                        mv.0.row as int,
                        mv.0.col as int,
                        mv.1.row as int,
                        mv.1.col as int,
                    )),
                moves@.no_duplicates(),
            decreases 64 - square,
        {
            let piece_position = Position::position_from_indices(square);
            let p = self.board[square];
            let turn_match = match p {
                Piece::Occupied(_, c) => c == self.color_to_move,
                Piece::Empty => false,
            };
            if turn_match {
                let target_squares = self.get_piece_moves_respecting_checks(piece_position);
                let k = target_squares.len();
                let mut j: usize = 0;
                while j < k
                    invariant
                        j <= k,
                        forall|mv: (Position, Position)|
                            moves@.contains(mv) <==> ((mv.0.wf() && mv.0.idx() < square
                                && legal_target_ok(
                                self@,
                                mv.0.row as int,
                                mv.0.col as int,
                                mv.1.row as int,
                                mv.1.col as int,
                            )) || (mv.0 == piece_position && target_squares@.subrange(
                                0,
                                j as int,
                            ).contains(mv.1))),
                        moves@.no_duplicates(),
                    decreases k - j,
                {
                    let t = target_squares[j];
                    proof {
                        assert(target_squares@.contains(t));
                        assert(target_squares@.subrange(0, j + 1) =~= target_squares@.subrange(
                            0,
                            j as int,
                        ).push(target_squares@[j as int]));
                        if !moves@.contains((piece_position, t)) {
                            lemma_push_no_duplicates(moves@, (piece_position, t));
                        }
                    }
                    moves.push((piece_position, t));
                    j = j + 1;
                }
                proof {
                    assert(target_squares@.subrange(0, k as int) =~= target_squares@);
                }
            } else {
                proof {
                    assert(forall|tr: int, tc: int|
                        !#[trigger] legal_target_ok(
                            self@,
                            square as int / 8,
                            square as int % 8,
                            tr,
                            tc,
                        ));
                }
            }
            square = square + 1;
        }
        moves
    }

    /// Whether the side to move is checkmated: it has no legal move and its
    /// king is attacked. No legal move while not in check is stalemate,
    /// which this engine does not label separately; callers can tell the
    /// two apart with `is_color_in_check`.
    pub fn is_checkmate(&self) -> (r: bool)
        requires
            model_wf(self@),
            self@.turn == Color::Black ==> self@.full_moves < u32::MAX,
            self@.half_moves < u32::MAX,
        ensures
            r == checkmate(self@),
    {
        let moves = self.get_legal_moves();
        if moves.len() > 0 {
            proof {
                let mv = moves@[0];
                assert(moves@.contains(mv));
            }
            return false;
        }
        proof {
            if any_legal_move(self@) {
                let (a, b, c, d) = choose|a: int, b: int, c: int, d: int|
                    #[trigger] legal_target_ok(self@, a, b, c, d);
                lemma_pseudo_target_props(self@, a, b, c, d);
                let mv = (
                    Position { row: a as u8, col: b as u8 },
                    Position { row: c as u8, col: d as u8 },
                );
                assert(moves@.contains(mv));
                assert(false);
            }
        }
        self.is_color_in_check(self.color_to_move)
    }

    /// Counts the kings of `color`; true exactly when there is one.
    fn king_status(&self, color: Color) -> (ok: bool)
        requires
            self@.squares.len() == 64,
        ensures
            ok == (has_king(self@.squares, color) && king_unique(self@.squares, color)),
    {
        let king = Piece::Occupied(PieceKind::King, color);
        let mut count: usize = 0;
        let ghost mut k1: int = 0;
        let ghost mut k2: int = 0;
        let mut i: usize = 0;
        while i < 64
            invariant
                i <= 64,
                count <= i,
                count == 0 ==> forall|j: int| 0 <= j < i ==> self@.squares[j] != king,
                count == 1 ==> 0 <= k1 < i && self@.squares[k1] == king && (forall|j: int|
                    0 <= j < i && self@.squares[j] == king ==> j == k1),
                count >= 2 ==> 0 <= k1 < i && 0 <= k2 < i && k1 != k2 && self@.squares[k1] == king
                    && self@.squares[k2] == king,
            decreases 64 - i,
        {
            if self.board[i] == king {
                if count == 0 {
                    proof {
                        k1 = i as int;
                    }
                } else if count == 1 {
                    proof {
                        k2 = i as int;
                    }
                }
                count = count + 1;
            }
            i = i + 1;
        }
        count == 1
    }

    /// Whether this position satisfies the structural invariant the engine
    /// expects of its inputs: 64 squares, exactly one king of each color,
    /// and a well-shaped en-passant target. FEN parsing alone does not
    /// guarantee this; callers that took a position from unchecked text
    /// should test it before querying checks or legal moves.
    pub fn is_well_formed(&self) -> (b: bool)
        ensures
            b == model_wf(self@),
    {
        if self.board.len() != 64 {
            return false;
        }
        if !self.king_status(Color::White) {
            return false;
        }
        if !self.king_status(Color::Black) {
            return false;
        }
        match self.en_passant_square {
            None => true,
            Some(t) => {
                if t.col >= 8 {
                    return false;
                }
                let expected_row: u8 = if matches!(self.color_to_move, Color::White) {
                    5
                } else {
                    2
                };
                if t.row != expected_row {
                    return false;
                }
                let pushed = other_color(self.color_to_move);
                let landed_row: u8 = if matches!(self.color_to_move, Color::White) {
                    4
                } else {
                    3
                };
                let pawn_there = self.get_piece_at_position(
                    Position { row: landed_row, col: t.col },
                ) == (Piece::Occupied(PieceKind::Pawn, pushed));
                let empty_there = matches!(
                    self.get_piece_at_position(Position { row: t.row, col: t.col }),
                    Piece::Empty,
                );
                pawn_there && empty_there
            },
        }
    }
}

/// The piece the standard starting arrangement puts on (`r`, `c`).
pub open spec fn starting_piece(r: int, c: int) -> Piece {
    if r == 1 {
        Piece::Occupied(PieceKind::Pawn, Color::White)
    } else if r == 6 {
        Piece::Occupied(PieceKind::Pawn, Color::Black)
    } else if r == 0 || r == 7 {
        let side = if r == 0 {
            Color::White
        } else {
            Color::Black
        };
        if c == 0 || c == 7 {
            Piece::Occupied(PieceKind::Rook, side)
        } else if c == 1 || c == 6 {
            Piece::Occupied(PieceKind::Knight, side)
        } else if c == 2 || c == 5 {
            Piece::Occupied(PieceKind::Bishop, side)
        } else if c == 3 {
            Piece::Occupied(PieceKind::Queen, side)
        } else {
            Piece::Occupied(PieceKind::King, side)
        }
    } else {
        Piece::Empty
    }
}

/// The standard starting position: White to move, every castling right set,
/// no en-passant target, clocks 0 and 1.
pub open spec fn starting_model() -> BoardModel {
    BoardModel {
        squares: Seq::new(64, |i: int| starting_piece(i / 8, i % 8)),
        turn: Color::White,
        rights: CastlingRights {
            white_kingside: true,
            white_queenside: true,
            black_kingside: true,
            black_queenside: true,
        },
        ep: None,
        half_moves: 0,
        full_moves: 1,
    }
}

/// The piece the starting arrangement puts on (`r`, `c`).
fn starting_piece_at(r: u8, c: u8) -> (p: Piece)
    requires
        r < 8,
        c < 8,
    ensures
        p == starting_piece(r as int, c as int),
{
    if r == 1 {
        Piece::Occupied(PieceKind::Pawn, Color::White)
    } else if r == 6 {
        Piece::Occupied(PieceKind::Pawn, Color::Black)
    } else if r == 0 || r == 7 {
        let side = if r == 0 {
            Color::White
        } else {
            Color::Black
        };
        if c == 0 || c == 7 {
            Piece::Occupied(PieceKind::Rook, side)
        } else if c == 1 || c == 6 {
            Piece::Occupied(PieceKind::Knight, side)
        } else if c == 2 || c == 5 {
            Piece::Occupied(PieceKind::Bishop, side)
        } else if c == 3 {
            Piece::Occupied(PieceKind::Queen, side)
        } else {
            Piece::Occupied(PieceKind::King, side)
        }
    } else {
        Piece::Empty
    }
}

impl BoardState {
    /// The standard starting position.
    pub fn new() -> (r: BoardState)
        ensures
            r@ == starting_model(),
            model_wf(r@),
    {
        let mut board: Vec<Piece> = Vec::new();
        let mut i: usize = 0;
        while i < 64
            invariant
                i <= 64,
                board@.len() == i,
                forall|j: int| 0 <= j < i ==> board@[j] == starting_piece(j / 8, j % 8),
            decreases 64 - i,
        {
            let r = (i / 8) as u8;
            let c = (i % 8) as u8;
            board.push(starting_piece_at(r, c));
            i = i + 1;
        }
        let bs = BoardState {
            board,
            color_to_move: Color::White,
            castling_rights: CastlingRights {
                white_kingside: true,
                white_queenside: true,
                black_kingside: true,
                black_queenside: true,
            },
            en_passant_square: None,
            half_move_clock: 0,
            full_move_clock: 1,
        };
        proof {
            assert(bs@.squares =~= starting_model().squares);
            assert(bs@ =~= starting_model());
            assert(bs@.squares[4] == Piece::Occupied(PieceKind::King, Color::White));
            assert(bs@.squares[60] == Piece::Occupied(PieceKind::King, Color::Black));
            assert forall|j: int|
                0 <= j < 64 && bs@.squares[j] == Piece::Occupied(
                    PieceKind::King,
                    Color::White,
                ) implies j == 4 by {
                vstd::arithmetic::div_mod::lemma_fundamental_div_mod(j, 8);
            }
            assert forall|j: int|
                0 <= j < 64 && bs@.squares[j] == Piece::Occupied(
                    PieceKind::King,
                    Color::Black,
                ) implies j == 60 by {
                vstd::arithmetic::div_mod::lemma_fundamental_div_mod(j, 8);
            }
        }
        bs
    }
}

/// A forward push of the pawn of color `col` on (`fr`, `fc`): one empty
/// square ahead, or two from the home rank over empty squares.
pub open spec fn pawn_push_candidate(
    m: BoardModel,
    fr: int,
    fc: int,
    tr: int,
    tc: int,
    col: Color,
) -> bool {
    let d = forward(col);
    ||| (tr == fr + d && tc == fc && in_bounds(tr, tc) && at(m.squares, tr, tc) is Empty)
    ||| (tr == fr + 2 * d && tc == fc && fr == pawn_home_row(col) && in_bounds(fr + d, fc)
        && in_bounds(tr, tc) && at(m.squares, fr + d, fc) is Empty && at(m.squares, tr, tc) is Empty)
}

/// A diagonal capture of the pawn of color `col` on (`fr`, `fc`): one step
/// forward sideways onto an enemy piece or the en-passant target.
pub open spec fn pawn_capture_candidate(
    m: BoardModel,
    fr: int,
    fc: int,
    tr: int,
    tc: int,
    col: Color,
) -> bool {
    (tc == fc + 1 || tc == fc - 1) && tr == fr + forward(col) && in_bounds(tr, tc) && (
    spec_opposite_color(at(m.squares, fr, fc), at(m.squares, tr, tc)) || ep_is(m.ep, tr, tc))
}

} // verus!

