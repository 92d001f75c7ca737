use vstd::prelude::*;
use crate::piece::{Color, Piece, PieceKind};
use crate::square::{Position, square_of_notation, notation_of};
use crate::rules::{at, BoardModel, CastlingRights};

verus! {

broadcast use vstd::seq_lib::lemma_seq_contains_after_push;

/// Why a FEN text was rejected: which of the six space-separated fields was
/// malformed, or that there were not exactly six of them.
#[derive(Clone, Copy, Debug, PartialEq, Eq, Structural)]
pub enum FenError {
    WrongFieldCount,
    BadPlacement,
    BadSideToMove,
    BadCastling,
    BadEnPassant,
    BadClock,
}

/// The piece a FEN letter names: uppercase for White, lowercase for Black.
pub open spec fn piece_of_char(ch: char) -> Option<Piece> {
    if ch == 'P' {
        Some(Piece::Occupied(PieceKind::Pawn, Color::White))
    } else if ch == 'R' {
        Some(Piece::Occupied(PieceKind::Rook, Color::White))
    } else if ch == 'N' {
        Some(Piece::Occupied(PieceKind::Knight, Color::White))
    } else if ch == 'B' {
        Some(Piece::Occupied(PieceKind::Bishop, Color::White))
    } else if ch == 'Q' {
        Some(Piece::Occupied(PieceKind::Queen, Color::White))
    } else if ch == 'K' {
        Some(Piece::Occupied(PieceKind::King, Color::White))
    } else if ch == 'p' {
        Some(Piece::Occupied(PieceKind::Pawn, Color::Black))
    } else if ch == 'r' {
        Some(Piece::Occupied(PieceKind::Rook, Color::Black))
    } else if ch == 'n' {
        Some(Piece::Occupied(PieceKind::Knight, Color::Black))
    } else if ch == 'b' {
        Some(Piece::Occupied(PieceKind::Bishop, Color::Black))
    } else if ch == 'q' {
        Some(Piece::Occupied(PieceKind::Queen, Color::Black))
    } else if ch == 'k' {
        Some(Piece::Occupied(PieceKind::King, Color::Black))
    } else {
        None
    }
}

/// The FEN letter of a piece, and a blank for an empty square.
pub open spec fn char_of_piece(p: Piece) -> char {
    match p {
        Piece::Empty => ' ',
        Piece::Occupied(PieceKind::Pawn, Color::White) => 'P',
        Piece::Occupied(PieceKind::Rook, Color::White) => 'R',
        Piece::Occupied(PieceKind::Knight, Color::White) => 'N',
        Piece::Occupied(PieceKind::Bishop, Color::White) => 'B',
        Piece::Occupied(PieceKind::Queen, Color::White) => 'Q',
        Piece::Occupied(PieceKind::King, Color::White) => 'K',
        Piece::Occupied(PieceKind::Pawn, Color::Black) => 'p',
        Piece::Occupied(PieceKind::Rook, Color::Black) => 'r',
        Piece::Occupied(PieceKind::Knight, Color::Black) => 'n',
        Piece::Occupied(PieceKind::Bishop, Color::Black) => 'b',
        Piece::Occupied(PieceKind::Queen, Color::Black) => 'q',
        Piece::Occupied(PieceKind::King, Color::Black) => 'k',
    }
}

/// The piece named by the FEN letter `piece`, or `None` for any other
/// character.
pub fn piece_from_char(piece: char) -> (r: Option<Piece>)
    ensures
        r == piece_of_char(piece),
{
    match piece {
        'P' => Some(Piece::Occupied(PieceKind::Pawn, Color::White)),
        'R' => Some(Piece::Occupied(PieceKind::Rook, Color::White)),
        'N' => Some(Piece::Occupied(PieceKind::Knight, Color::White)),
        'B' => Some(Piece::Occupied(PieceKind::Bishop, Color::White)),
        'Q' => Some(Piece::Occupied(PieceKind::Queen, Color::White)),
        'K' => Some(Piece::Occupied(PieceKind::King, Color::White)),
        'p' => Some(Piece::Occupied(PieceKind::Pawn, Color::Black)),
        'r' => Some(Piece::Occupied(PieceKind::Rook, Color::Black)),
        'n' => Some(Piece::Occupied(PieceKind::Knight, Color::Black)),
        'b' => Some(Piece::Occupied(PieceKind::Bishop, Color::Black)),
        'q' => Some(Piece::Occupied(PieceKind::Queen, Color::Black)),
        'k' => Some(Piece::Occupied(PieceKind::King, Color::Black)),
        _ => None,
    }
}

/// The FEN letter of `piece`, and a blank for an empty square.
pub fn char_from_piece(piece: Piece) -> (r: char)
    ensures
        r == char_of_piece(piece),
{
    match piece {
        Piece::Empty => ' ',
        Piece::Occupied(PieceKind::Pawn, Color::White) => 'P',
        Piece::Occupied(PieceKind::Rook, Color::White) => 'R',
        Piece::Occupied(PieceKind::Knight, Color::White) => 'N',
        Piece::Occupied(PieceKind::Bishop, Color::White) => 'B',
        Piece::Occupied(PieceKind::Queen, Color::White) => 'Q',
        Piece::Occupied(PieceKind::King, Color::White) => 'K',
        Piece::Occupied(PieceKind::Pawn, Color::Black) => 'p',
        Piece::Occupied(PieceKind::Rook, Color::Black) => 'r',
        Piece::Occupied(PieceKind::Knight, Color::Black) => 'n',
        Piece::Occupied(PieceKind::Bishop, Color::Black) => 'b',
        Piece::Occupied(PieceKind::Queen, Color::Black) => 'q',
        Piece::Occupied(PieceKind::King, Color::Black) => 'k',
    }
}

/// The digit character of `d` (0 through 9).
pub open spec fn digit_char(d: int) -> char {
    if d == 0 {
        '0'
    } else if d == 1 {
        '1'
    } else if d == 2 {
        '2'
    } else if d == 3 {
        '3'
    } else if d == 4 {
        '4'
    } else if d == 5 {
        '5'
    } else if d == 6 {
        '6'
    } else if d == 7 {
        '7'
    } else if d == 8 {
        '8'
    } else {
        '9'
    }
}

/// The value of a digit character, or `None` for any other character.
pub open spec fn digit_of_char(ch: char) -> Option<int> {
    if ch == '0' {
        Some(0int)
    } else if ch == '1' {
        Some(1int)
    } else if ch == '2' {
        Some(2int)
    } else if ch == '3' {
        Some(3int)
    } else if ch == '4' {
        Some(4int)
    } else if ch == '5' {
        Some(5int)
    } else if ch == '6' {
        Some(6int)
    } else if ch == '7' {
        Some(7int)
    } else if ch == '8' {
        Some(8int)
    } else if ch == '9' {
        Some(9int)
    } else {
        None
    }
}

/// Reads the digits of `f` from `idx` on into an accumulator that must stay
/// within `u32`: `None` on a non-digit or on overflow.
pub open spec fn clock_rec(f: Seq<char>, idx: int, acc: u32) -> Option<u32>
    decreases f.len() - idx,
{
    if idx >= f.len() {
        Some(acc)
    } else {
        match digit_of_char(f[idx]) {
            None => None,
            Some(d) => if acc * 10 + d > u32::MAX {
                None
            } else {
                clock_rec(f, idx + 1, (acc * 10 + d) as u32)
            },
        }
    }
}

/// The clock value a FEN field names: one or more digits whose value fits
/// in `u32`, and nothing else.
pub open spec fn parse_clock(f: Seq<char>) -> Option<u32> {
    if f.len() == 0 {
        None
    } else {
        clock_rec(f, 0, 0)
    }
}

/// The digits of `f` from index `i` on, accumulated onto `acc`.
fn clock_loop(f: &Vec<char>, start: usize, first_acc: u32) -> (r: Option<u32>)
    requires
        start <= f@.len(),
    ensures
        r == clock_rec(f@, start as int, first_acc),
{
    let mut acc = first_acc;
    let mut i = start;
    let n = f.len();
    while i < n
        invariant
            start <= i <= n,
            clock_rec(f@, start as int, first_acc) == clock_rec(f@, i as int, acc),
        decreases n - i,
    {
        let d: u32 = match f[i] {
            '0' => 0,
            '1' => 1,
            '2' => 2,
            '3' => 3,
            '4' => 4,
            '5' => 5,
            '6' => 6,
            '7' => 7,
            '8' => 8,
            '9' => 9,
            _ => { return None; },
        };
        if acc > (u32::MAX - d) / 10 {
            proof {
                assert(acc * 10 + d > u32::MAX) by (nonlinear_arith)
                    requires
                        acc > (u32::MAX - d) / 10,
                        d <= 9,
                ;
            }
            return None;
        }
        proof {
            assert(acc * 10 + d <= u32::MAX) by (nonlinear_arith)
                requires
                    acc <= (u32::MAX - d) / 10,
                    d <= 9,
            ;
        }
        acc = acc * 10 + d;
        i = i + 1;
    }
    Some(acc)
}

/// The clock named by `f`: one or more digits fitting in `u32`.
fn parse_clock_field(f: &Vec<char>) -> (r: Option<u32>)
    ensures
        r == parse_clock(f@),
{
    if f.len() == 0 {
        return None;
    }
    clock_loop(f, 0, 0)
}

/// `s` split on `sep`: one more field than separators, in order, possibly
/// empty.
pub open spec fn split_on(s: Seq<char>, sep: char) -> Seq<Seq<char>>
    decreases s.len(),
{
    if s.len() == 0 {
        seq![Seq::<char>::empty()]
    } else if s[0] == sep {
        seq![Seq::<char>::empty()] + split_on(s.drop_first(), sep)
    } else {
        let rest = split_on(s.drop_first(), sep);
        seq![seq![s[0]] + rest[0]] + rest.drop_first()
    }
}

/// A split always yields at least one field.
proof fn lemma_split_nonempty(s: Seq<char>, sep: char)
    ensures
        split_on(s, sep).len() >= 1,
    decreases s.len(),
{
    if s.len() == 0 {
    } else {
        lemma_split_nonempty(s.drop_first(), sep);
    }
}

/// The fields of `s` split on blanks.
fn split_fields(s: &Vec<char>) -> (r: Vec<Vec<char>>)
    ensures
        r@.len() == split_on(s@, ' ').len(),
        forall|k: int| 0 <= k < r@.len() ==> #[trigger] r@[k]@ == split_on(s@, ' ')[k],
{
    let ghost full = split_on(s@, ' ');
    proof {
        lemma_split_nonempty(s@, ' ');
    }
    let mut finished: Vec<Vec<char>> = Vec::new();
    let mut cur: Vec<char> = Vec::new();
    let n = s.len();
    proof {
        assert(s@.subrange(0, n as int) =~= s@);
        assert(Seq::<char>::empty() + split_on(s@, ' ')[0] =~= split_on(s@, ' ')[0]);
    }
    let mut i: usize = 0;
    while i < n
        invariant
            i <= n,
            full == split_on(s@, ' '),
            full.len() == finished@.len() + split_on(s@.subrange(i as int, n as int), ' ').len(),
            forall|k: int| 0 <= k < finished@.len() ==> #[trigger] full[k] == finished@[k]@,
            full[finished@.len() as int] == cur@ + split_on(
                s@.subrange(i as int, n as int),
                ' ',
            )[0],
            forall|k: int|
                1 <= k < split_on(s@.subrange(i as int, n as int), ' ').len()
                    ==> #[trigger] full[finished@.len() + k] == split_on(
                    s@.subrange(i as int, n as int),
                    ' ',
                )[k],
        decreases n - i,
    {
        let ghost tail_i = s@.subrange(i as int, n as int);
        let ghost tail_i1 = s@.subrange(i + 1, n as int);
        proof {
            assert(tail_i.len() > 0);
            assert(tail_i[0] == s@[i as int]);
            assert(tail_i.drop_first() =~= tail_i1);
            lemma_split_nonempty(tail_i1, ' ');
        }
        let ghost old_len = finished@.len() as int;
        let c = s[i];
        if c == ' ' {
            finished.push(cur);
            cur = Vec::new();
            proof {
                assert(cur@ + split_on(tail_i1, ' ')[0] =~= split_on(tail_i1, ' ')[0]);
                assert forall|k: int| 1 <= k < split_on(tail_i1, ' ').len() implies #[trigger] full[
                    finished@.len() + k
                ] == split_on(tail_i1, ' ')[k] by {
                    assert(full[old_len + (k + 1)] == split_on(tail_i, ' ')[k + 1]);
                    assert(split_on(tail_i, ' ')[k + 1] == split_on(tail_i1, ' ')[k]);
                }
            }
        } else {
            let ghost cur_old = cur@;
            cur.push(c);
            proof {
                assert(cur_old.push(c) + split_on(tail_i1, ' ')[0] =~= cur_old + (seq![
                    s@[i as int],
                ] + split_on(tail_i1, ' ')[0]));
                assert forall|k: int| 1 <= k < split_on(tail_i1, ' ').len() implies #[trigger] full[
                    finished@.len() + k
                ] == split_on(tail_i1, ' ')[k] by {
                    assert(full[old_len + k] == split_on(tail_i, ' ')[k]);
                    assert(split_on(tail_i, ' ')[k] == split_on(tail_i1, ' ')[k]);
                }
            }
        }
        i = i + 1;
    }
    proof {
        assert(s@.subrange(n as int, n as int) =~= Seq::<char>::empty());
        assert(cur@ + Seq::<char>::empty() =~= cur@);
    }
    finished.push(cur);
    finished
}

/// One step of reading the placement field onto board `b`: a digit skips
/// that many empty squares, a letter places a piece, a slash closes a full
/// rank; the text must end with rank 1 complete.
pub open spec fn place_rec(f: Seq<char>, idx: int, b: Seq<Piece>, row: int, col: int) -> Option<
    Seq<Piece>,
>
    decreases f.len() - idx,
{
    if idx >= f.len() {
        if row == 0 && col == 8 {
            Some(b)
        } else {
            None
        }
    } else {
        let ch = f[idx];
        if ch == '/' {
            if col == 8 && row >= 1 {
                place_rec(f, idx + 1, b, row - 1, 0)
            } else {
                None
            }
        } else {
            match digit_of_char(ch) {
                Some(d) => if 1 <= d && col + d <= 8 {
                    place_rec(f, idx + 1, b, row, col + d)
                } else {
                    None
                },
                None => match piece_of_char(ch) {
                    Some(p) => if col <= 7 {
                        place_rec(f, idx + 1, b.update(row * 8 + col, p), row, col + 1)
                    } else {
                        None
                    },
                    None => None,
                },
            }
        }
    }
}

/// The 64 squares the placement field describes: ranks 8 down to 1,
/// slash-separated, with exactly eight columns per rank.
pub open spec fn parse_placement(f: Seq<char>) -> Option<Seq<Piece>> {
    place_rec(f, 0, Seq::new(64, |i: int| Piece::Empty), 7, 0)
}

/// Reads the placement field into a board vector.
fn parse_placement_field(f: &Vec<char>) -> (r: Option<Vec<Piece>>)
    ensures
        match r {
            Some(b) => parse_placement(f@) == Some(b@) && b@.len() == 64,
            None => parse_placement(f@) is None,
        },
{
    let mut board: Vec<Piece> = Vec::new();
    let mut j: usize = 0;
    while j < 64
        invariant
            j <= 64,
            board@.len() == j,
            forall|x: int| 0 <= x < j ==> board@[x] == Piece::Empty,
        decreases 64 - j,
    {
        board.push(Piece::Empty);
        j = j + 1;
    }
    proof {
        assert(board@ =~= Seq::new(64, |i: int| Piece::Empty));
    }
    let mut row: u8 = 7;
    let mut col: u8 = 0;
    let n = f.len();
    let mut i: usize = 0;
    while i < n
        invariant
            i <= n,
            row <= 7,
            col <= 8,
            board@.len() == 64,
            parse_placement(f@) == place_rec(f@, i as int, board@, row as int, col as int),
        decreases n - i,
    {
        let ch = f[i];
        if ch == '/' {
            if col == 8 && row >= 1 {
                row = row - 1;
                col = 0;
            } else {
                return None;
            }
        } else {
            let dv: Option<u8> = match ch {
                '0' => Some(0),
                '1' => Some(1),
                '2' => Some(2),
                '3' => Some(3),
                '4' => Some(4),
                '5' => Some(5),
                '6' => Some(6),
                '7' => Some(7),
                '8' => Some(8),
                '9' => Some(9),
                _ => None,
            };
            match dv {
                Some(d) => {
                    if 1 <= d && col + d <= 8 {
                        col = col + d;
                    } else {
                        return None;
                    }
                },
                None => {
                    match piece_from_char(ch) {
                        Some(p) => {
                            if col <= 7 {
                                let idx = (row as usize) * 8 + (col as usize);
                                board.set(idx, p);
                                col = col + 1;
                            } else {
                                return None;
                            }
                        },
                        None => {
                            return None;
                        },
                    }
                },
            }
        }
        i = i + 1;
    }
    if row == 0 && col == 8 {
        Some(board)
    } else {
        None
    }
}

/// The side to move a FEN field names: `w` or `b`, nothing else.
pub open spec fn parse_turn(f: Seq<char>) -> Option<Color> {
    if f.len() == 1 && f[0] == 'w' {
        Some(Color::White)
    } else if f.len() == 1 && f[0] == 'b' {
        Some(Color::Black)
    } else {
        None
    }
}

/// Reads the side-to-move field.
fn parse_turn_field(f: &Vec<char>) -> (r: Option<Color>)
    ensures
        r == parse_turn(f@),
{
    if f.len() != 1 {
        return None;
    }
    match f[0] {
        'w' => Some(Color::White),
        'b' => Some(Color::Black),
        _ => None,
    }
}

/// The rights flag a FEN castling letter names, in canonical order
/// `K`, `Q`, `k`, `q`.
pub open spec fn rights_bit(ch: char) -> Option<int> {
    if ch == 'K' {
        Some(0int)
    } else if ch == 'Q' {
        Some(1int)
    } else if ch == 'k' {
        Some(2int)
    } else if ch == 'q' {
        Some(3int)
    } else {
        None
    }
}

/// `r` with the right named by `bit` set.
pub open spec fn set_right(r: CastlingRights, bit: int) -> CastlingRights {
    if bit == 0 {
        CastlingRights { white_kingside: true, ..r }
    } else if bit == 1 {
        CastlingRights { white_queenside: true, ..r }
    } else if bit == 2 {
        CastlingRights { black_kingside: true, ..r }
    } else {
        CastlingRights { black_queenside: true, ..r }
    }
}

/// Reads castling letters from `idx` on, in strictly increasing canonical
/// order, into a rights value.
pub open spec fn rights_rec(f: Seq<char>, idx: int, min_bit: int) -> Option<CastlingRights>
    decreases f.len() - idx,
{
    if idx >= f.len() {
        Some(
            CastlingRights {
                white_kingside: false,
                white_queenside: false,
                black_kingside: false,
                black_queenside: false,
            },
        )
    } else {
        match rights_bit(f[idx]) {
            None => None,
            Some(b) => if b < min_bit {
                None
            } else {
                match rights_rec(f, idx + 1, b + 1) {
                    None => None,
                    Some(r) => Some(set_right(r, b)),
                }
            },
        }
    }
}

/// The castling rights a FEN field names: `-` for none, else a nonempty
/// subset of `KQkq` in that order.
pub open spec fn parse_rights(f: Seq<char>) -> Option<CastlingRights> {
    if f.len() == 1 && f[0] == '-' {
        Some(
            CastlingRights {
                white_kingside: false,
                white_queenside: false,
                black_kingside: false,
                black_queenside: false,
            },
        )
    } else if f.len() >= 1 {
        rights_rec(f, 0, 0)
    } else {
        None
    }
}

/// The union of two rights values, flag by flag.
pub open spec fn merge_rights(a: CastlingRights, b: CastlingRights) -> CastlingRights {
    CastlingRights {
        white_kingside: a.white_kingside || b.white_kingside,
        white_queenside: a.white_queenside || b.white_queenside,
        black_kingside: a.black_kingside || b.black_kingside,
        black_queenside: a.black_queenside || b.black_queenside,
    }
}

/// Reads the castling-rights field.
fn parse_rights_field(f: &Vec<char>) -> (r: Option<CastlingRights>)
    ensures
        r == parse_rights(f@),
{
    let n = f.len();
    if n == 0 {
        return None;
    }
    if n == 1 && f[0] == '-' {
        return Some(
            CastlingRights {
                white_kingside: false,
                white_queenside: false,
                black_kingside: false,
                black_queenside: false,
            },
        );
    }
    let mut acc = CastlingRights {
        white_kingside: false,
        white_queenside: false,
        black_kingside: false,
        black_queenside: false,
    };
    let mut min_bit: u8 = 0;
    let mut i: usize = 0;
    while i < n
        invariant
            i <= n,
            min_bit <= 4,
            rights_rec(f@, 0, 0) == (match rights_rec(f@, i as int, min_bit as int) {
                None => None::<CastlingRights>,
                Some(rest) => Some(merge_rights(acc, rest)),
            }),
        decreases n - i,
    {
        let b: u8 = match f[i] {
            'K' => 0,
            'Q' => 1,
            'k' => 2,
            'q' => 3,
            _ => { return None; },
        };
        if b < min_bit {
            return None;
        }
        if b == 0 {
            acc.white_kingside = true;
        } else if b == 1 {
            acc.white_queenside = true;
        } else if b == 2 {
            acc.black_kingside = true;
        } else {
            acc.black_queenside = true;
        }
        min_bit = b + 1;
        i = i + 1;
    }
    Some(acc)
}

/// The en-passant field: `-` for no target, else an algebraic square name.
pub open spec fn parse_ep(f: Seq<char>) -> Option<Option<Position>> {
    if f.len() == 1 && f[0] == '-' {
        Some(None)
    } else {
        match square_of_notation(f) {
            Some(p) => Some(Some(p)),
            None => None,
        }
    }
}

/// Reads the en-passant field.
fn parse_ep_field(f: &Vec<char>) -> (r: Option<Option<Position>>)
    ensures
        r == parse_ep(f@),
{
    let n = f.len();
    if n == 1 && f[0] == '-' {
        return Some(None);
    }
    if n != 2 {
        return None;
    }
    let col_opt: Option<u8> = match f[0] {
        'a' | 'A' => Some(0),
        'b' | 'B' => Some(1),
        'c' | 'C' => Some(2),
        'd' | 'D' => Some(3),
        'e' | 'E' => Some(4),
        'f' | 'F' => Some(5),
        'g' | 'G' => Some(6),
        'h' | 'H' => Some(7),
        _ => None,
    };
    let row_opt: Option<u8> = match f[1] {
        '1' => Some(0),
        '2' => Some(1),
        '3' => Some(2),
        '4' => Some(3),
        '5' => Some(4),
        '6' => Some(5),
        '7' => Some(6),
        '8' => Some(7),
        _ => None,
    };
    match (col_opt, row_opt) {
        (Some(c), Some(r)) => Some(Some(Position { row: r, col: c })),
        _ => None,
    }
}

/// The position a FEN text describes, or the first reason it is rejected:
/// six space-separated fields, checked left to right.
pub open spec fn parse_fen(s: Seq<char>) -> Result<BoardModel, FenError> {
    let fields = split_on(s, ' ');
    if fields.len() != 6 {
        Err(FenError::WrongFieldCount)
    } else if parse_placement(fields[0]) is None {
        Err(FenError::BadPlacement)
    } else if parse_turn(fields[1]) is None {
        Err(FenError::BadSideToMove)
    } else if parse_rights(fields[2]) is None {
        Err(FenError::BadCastling)
    } else if parse_ep(fields[3]) is None {
        Err(FenError::BadEnPassant)
    } else if parse_clock(fields[4]) is None || parse_clock(fields[5]) is None {
        Err(FenError::BadClock)
    } else {
        Ok(
            BoardModel {
                squares: parse_placement(fields[0]).unwrap(),
                turn: parse_turn(fields[1]).unwrap(),
                rights: parse_rights(fields[2]).unwrap(),
                ep: parse_ep(fields[3]).unwrap(),
                half_moves: parse_clock(fields[4]).unwrap() as int,
                full_moves: parse_clock(fields[5]).unwrap() as int,
            },
        )
    }
}

/// One rank of the placement field from column `c` on, with a pending run
/// of `run` empty squares.
pub open spec fn row_fen(s: Seq<Piece>, r: int, c: int, run: int) -> Seq<char>
    decreases 8 - c,
{
    if c >= 8 {
        if run > 0 {
            seq![digit_char(run)]
        } else {
            Seq::<char>::empty()
        }
    } else {
        match at(s, r, c) {
            Piece::Empty => row_fen(s, r, c + 1, run + 1),
            p => (if run > 0 {
                seq![digit_char(run)]
            } else {
                Seq::<char>::empty()
            }) + seq![char_of_piece(p)] + row_fen(s, r, c + 1, 0),
        }
    }
}

/// The placement field for ranks `r` down to 1, slash-separated.
pub open spec fn placement_fen(s: Seq<Piece>, r: int) -> Seq<char>
    decreases r,
{
    if r <= 0 {
        row_fen(s, 0, 0, 0)
    } else {
        row_fen(s, r, 0, 0) + seq!['/'] + placement_fen(s, r - 1)
    }
}

/// The castling-rights field: the set letters in canonical order, or `-`.
pub open spec fn rights_fen(r: CastlingRights) -> Seq<char> {
    if !r.white_kingside && !r.white_queenside && !r.black_kingside && !r.black_queenside {
        seq!['-']
    } else {
        (if r.white_kingside {
            seq!['K']
        } else {
            Seq::<char>::empty()
        }) + (if r.white_queenside {
            seq!['Q']
        } else {
            Seq::<char>::empty()
        }) + (if r.black_kingside {
            seq!['k']
        } else {
            Seq::<char>::empty()
        }) + (if r.black_queenside {
            seq!['q']
        } else {
            Seq::<char>::empty()
        })
    }
}

/// The en-passant field: the target's algebraic name, or `-`.
pub open spec fn ep_fen(ep: Option<Position>) -> Seq<char> {
    match ep {
        None => seq!['-'],
        Some(t) => notation_of(t),
    }
}

/// The decimal digits of `n`, most significant first.
pub open spec fn dec_spec(n: int) -> Seq<char>
    decreases n,
{
    if n < 10 {
        seq![digit_char(n)]
    } else {
        dec_spec(n / 10).push(digit_char(n % 10))
    }
}

/// The FEN text of a position: the six fields, space-separated.
pub open spec fn fen_of(m: BoardModel) -> Seq<char> {
    placement_fen(m.squares, 7) + seq![' '] + (if m.turn == Color::White {
        seq!['w']
    } else {
        seq!['b']
    }) + seq![' '] + rights_fen(m.rights) + seq![' '] + ep_fen(m.ep) + seq![' '] + dec_spec(
        m.half_moves,
    ) + seq![' '] + dec_spec(m.full_moves)
}

/// The digit `d` as a one-character string slice.
fn digit_str(d: u8) -> (s: &'static str)
    requires
        d <= 9,
    ensures
        s@ == seq![digit_char(d as int)],
{
    proof {
        reveal_strlit("0");
        reveal_strlit("1");
        reveal_strlit("2");
        reveal_strlit("3");
        reveal_strlit("4");
        reveal_strlit("5");
        reveal_strlit("6");
        reveal_strlit("7");
        reveal_strlit("8");
        reveal_strlit("9");
    }
    match d {
        0 => "0",
        1 => "1",
        2 => "2",
        3 => "3",
        4 => "4",
        5 => "5",
        6 => "6",
        7 => "7",
        8 => "8",
        _ => "9",
    }
}

/// The FEN letter of `p` (a blank for an empty square) as a one-character
/// string slice.
fn piece_letter_str(p: Piece) -> (s: &'static str)
    ensures
        s@ == seq![char_of_piece(p)],
{
    proof {
        reveal_strlit(" ");
        reveal_strlit("P");
        reveal_strlit("R");
        reveal_strlit("N");
        reveal_strlit("B");
        reveal_strlit("Q");
        reveal_strlit("K");
        reveal_strlit("p");
        reveal_strlit("r");
        reveal_strlit("n");
        reveal_strlit("b");
        reveal_strlit("q");
        reveal_strlit("k");
    }
    match p {
        Piece::Empty => " ",
        Piece::Occupied(PieceKind::Pawn, Color::White) => "P",
        Piece::Occupied(PieceKind::Rook, Color::White) => "R",
        Piece::Occupied(PieceKind::Knight, Color::White) => "N",
        Piece::Occupied(PieceKind::Bishop, Color::White) => "B",
        Piece::Occupied(PieceKind::Queen, Color::White) => "Q",
        Piece::Occupied(PieceKind::King, Color::White) => "K",
        Piece::Occupied(PieceKind::Pawn, Color::Black) => "p",
        Piece::Occupied(PieceKind::Rook, Color::Black) => "r",
        Piece::Occupied(PieceKind::Knight, Color::Black) => "n",
        Piece::Occupied(PieceKind::Bishop, Color::Black) => "b",
        Piece::Occupied(PieceKind::Queen, Color::Black) => "q",
        Piece::Occupied(PieceKind::King, Color::Black) => "k",
    }
}

/// Appends the decimal digits of `n`.
fn push_decimal(out: &mut String, n: u32)
    ensures
        final(out)@ == old(out)@ + dec_spec(n as int),
    decreases n,
{
    if n < 10 {
        out.append(digit_str(n as u8));
    } else {
        push_decimal(out, n / 10);
        out.append(digit_str((n % 10) as u8));
        proof {
            assert(final(out)@ =~= old(out)@ + dec_spec(n as int));
        }
    }
}

/// Appends rank `r` of the placement field.
fn append_row_fen(out: &mut String, b: &crate::board::BoardState, r: u8)
    requires
        b@.squares.len() == 64,
        r < 8,
    ensures
        final(out)@ == old(out)@ + row_fen(b@.squares, r as int, 0, 0),
{
    let mut run: u8 = 0;
    let mut c: u8 = 0;
    while c < 8
        invariant
            c <= 8,
            run <= c,
            old(out)@ + row_fen(b@.squares, r as int, 0, 0) == out@ + row_fen(
                b@.squares,
                r as int,
                c as int,
                run as int,
            ),
        decreases 8 - c,
    {
        let p = b.get_piece_at_position(Position { row: r, col: c });
        match p {
            Piece::Empty => {
                run = run + 1;
            },
            _ => {
                let ghost mid = out@;
                let ghost run0 = run as int;
                if run > 0 {
                    out.append(digit_str(run));
                }
                out.append(piece_letter_str(p));
                run = 0;
                proof {
                    assert(out@ =~= mid + ((if run0 > 0 {
                        seq![digit_char(run0)]
                    } else {
                        Seq::<char>::empty()
                    }) + seq![char_of_piece(p)]));
                    assert(old(out)@ + row_fen(b@.squares, r as int, 0, 0) =~= out@ + row_fen(
                        b@.squares,
                        r as int,
                        c + 1,
                        0,
                    ));
                }
            },
        }
        c = c + 1;
    }
    if run > 0 {
        out.append(digit_str(run));
    }
    proof {
        assert(final(out)@ =~= old(out)@ + row_fen(b@.squares, r as int, 0, 0));
    }
}

/// Appends the castling-rights field.
fn append_rights(out: &mut String, rt: CastlingRights)
    ensures
        final(out)@ == old(out)@ + rights_fen(rt),
{
    proof {
        reveal_strlit("-");
        reveal_strlit("K");
        reveal_strlit("Q");
        reveal_strlit("k");
        reveal_strlit("q");
    }
    if !rt.white_kingside && !rt.white_queenside && !rt.black_kingside && !rt.black_queenside {
        out.append("-");
    } else {
        if rt.white_kingside {
            out.append("K");
        }
        if rt.white_queenside {
            out.append("Q");
        }
        if rt.black_kingside {
            out.append("k");
        }
        if rt.black_queenside {
            out.append("q");
        }
        proof {
            assert(final(out)@ =~= old(out)@ + rights_fen(rt));
        }
    }
}

impl crate::board::BoardState {
    /// The FEN text of this position: placement, side to move, castling
    /// rights, en-passant target, and the two clocks, space-separated.
    #[verifier::rlimit(50)]
    pub fn to_fen(&self) -> (s: String)
        requires
            self@.squares.len() == 64,
            self@.ep matches Some(t) ==> t.wf(),
        ensures
            s@ == fen_of(self@),
    {
        proof {
            reveal_strlit(" ");
            reveal_strlit("/");
            reveal_strlit("w");
            reveal_strlit("b");
            reveal_strlit("-");
            reveal_strlit("K");
            reveal_strlit("Q");
            reveal_strlit("k");
            reveal_strlit("q");
        }
        let mut out = String::new();
        let mut r: u8 = 7;
        while r > 0
            invariant
                r <= 7,
                self@.squares.len() == 64,
                out@ + placement_fen(self@.squares, r as int) == placement_fen(self@.squares, 7),
            decreases r,
        {
            let ghost before = out@;
            append_row_fen(&mut out, self, r);
            out.append("/");
            proof {
                reveal_strlit("/");
                assert(out@ =~= before + (row_fen(self@.squares, r as int, 0, 0) + seq!['/']));
                assert(out@ + placement_fen(self@.squares, r as int - 1) =~= before + placement_fen(
                    self@.squares,
                    r as int,
                ));
            }
            r = r - 1;
        }
        append_row_fen(&mut out, self, 0);
        proof {
            assert(out@ =~= placement_fen(self@.squares, 7));
        }
        out.append(" ");
        if matches!(self.color_to_move, Color::White) {
            out.append("w");
        } else {
            out.append("b");
        }
        out.append(" ");
        append_rights(&mut out, self.castling_rights);
        out.append(" ");
        match self.en_passant_square {
            None => out.append("-"),
            Some(t) => {
                let name = t.str();
                out.append(name.as_str());
            },
        }
        out.append(" ");
        push_decimal(&mut out, self.half_move_clock);
        out.append(" ");
        push_decimal(&mut out, self.full_move_clock);
        proof {
            assert(out@ =~= fen_of(self@));
        }
        out
    }
}

/// One rank of the text grid from column `c` on: FEN letters and blanks for
/// empty squares, blanks between columns.
pub open spec fn row_cells(s: Seq<Piece>, r: int, c: int) -> Seq<char>
    decreases 8 - c,
{
    if c >= 8 {
        Seq::<char>::empty()
    } else {
        seq![char_of_piece(at(s, r, c))] + (if c < 7 {
            seq![' ']
        } else {
            Seq::<char>::empty()
        }) + row_cells(s, r, c + 1)
    }
}

/// The text grid for ranks `r` down to 1: newlines between ranks and a
/// trailing blank after the last square.
pub open spec fn grid_rows(s: Seq<Piece>, r: int) -> Seq<char>
    decreases r,
{
    if r <= 0 {
        row_cells(s, 0, 0) + seq![' ']
    } else {
        row_cells(s, r, 0) + seq!['\n'] + grid_rows(s, r - 1)
    }
}

/// The plain text dump of a board: ranks 8 down to 1.
pub open spec fn grid_of(s: Seq<Piece>) -> Seq<char> {
    grid_rows(s, 7)
}

/// The annotated dump: the grid with the side to move, castling rights,
/// en-passant target and the two clocks written beside its first five
/// ranks.
pub open spec fn full_state_of(m: BoardModel) -> Seq<char> {
    row_cells(m.squares, 7, 0) + "\t\tTo move: "@ + (if m.turn == Color::White {
        "white"@
    } else {
        "black"@
    }) + "\n"@ + row_cells(m.squares, 6, 0) + "\t\tCastling rights: "@ + rights_fen(m.rights)
        + "\n"@ + row_cells(m.squares, 5, 0) + "\t\tEn-passant-square: "@ + (match m.ep {
        None => Seq::<char>::empty(),
        Some(t) => notation_of(t),
    }) + "\n"@ + row_cells(m.squares, 4, 0) + "\t\tHalf move clock: "@ + dec_spec(m.half_moves)
        + "\n"@ + row_cells(m.squares, 3, 0) + "\t\tFull move clock: "@ + dec_spec(m.full_moves)
        + "\n"@ + row_cells(m.squares, 2, 0) + "\n"@ + row_cells(m.squares, 1, 0) + "\n"@
        + row_cells(m.squares, 0, 0) + " \n"@
}

/// Appends rank `r` of the text grid.
fn append_cells(out: &mut String, b: &crate::board::BoardState, r: u8)
    requires
        b@.squares.len() == 64,
        r < 8,
    ensures
        final(out)@ == old(out)@ + row_cells(b@.squares, r as int, 0),
{
    proof {
        reveal_strlit(" ");
    }
    let mut c: u8 = 0;
    while c < 8
        invariant
            c <= 8,
            old(out)@ + row_cells(b@.squares, r as int, 0) == out@ + row_cells(
                b@.squares,
                r as int,
                c as int,
            ),
        decreases 8 - c,
    {
        let ghost mid = out@;
        let p = b.get_piece_at_position(Position { row: r, col: c });
        out.append(piece_letter_str(p));
        if c < 7 {
            out.append(" ");
        }
        proof {
            reveal_strlit(" ");
            assert(out@ =~= mid + (seq![char_of_piece(at(b@.squares, r as int, c as int))] + (if c
                < 7 {
                seq![' ']
            } else {
                Seq::<char>::empty()
            })));
            assert(old(out)@ + row_cells(b@.squares, r as int, 0) =~= out@ + row_cells(
                b@.squares,
                r as int,
                c + 1,
            ));
        }
        c = c + 1;
    }
}

impl crate::board::BoardState {
    /// The plain text dump of the board: ranks 8 down to 1, pieces as FEN
    /// letters, blanks between columns and newlines between ranks.
    pub fn str(&self) -> (s: String)
        requires
            self@.squares.len() == 64,
        ensures
            s@ == grid_of(self@.squares),
    {
        proof {
            reveal_strlit(" ");
            reveal_strlit("\n");
        }
        let mut out = String::new();
        let mut r: u8 = 7;
        while r > 0
            invariant
                r <= 7,
                self@.squares.len() == 64,
                out@ + grid_rows(self@.squares, r as int) == grid_of(self@.squares),
            decreases r,
        {
            let ghost before = out@;
            append_cells(&mut out, self, r);
            out.append("\n");
            proof {
                reveal_strlit("\n");
                assert(out@ =~= before + (row_cells(self@.squares, r as int, 0) + seq!['\n']));
                assert(out@ + grid_rows(self@.squares, r as int - 1) =~= before + grid_rows(
                    self@.squares,
                    r as int,
                ));
            }
            r = r - 1;
        }
        append_cells(&mut out, self, 0);
        out.append(" ");
        proof {
            assert(out@ =~= grid_of(self@.squares));
        }
        out
    }

    /// The annotated dump: the grid of `str` with the side to move,
    /// castling rights, en-passant target and the two clocks written beside
    /// its first five ranks.
    #[verifier::rlimit(50)]
    pub fn full_state_str(&self) -> (s: String)
        requires
            self@.squares.len() == 64,
            self@.ep matches Some(t) ==> t.wf(),
        ensures
            s@ == full_state_of(self@),
    {
        let mut out = String::new();
        append_cells(&mut out, self, 7);
        out.append("\t\tTo move: ");
        if matches!(self.color_to_move, Color::White) {
            out.append("white");
        } else {
            out.append("black");
        }
        out.append("\n");
        append_cells(&mut out, self, 6);
        out.append("\t\tCastling rights: ");
        append_rights(&mut out, self.castling_rights);
        out.append("\n");
        append_cells(&mut out, self, 5);
        out.append("\t\tEn-passant-square: ");
        match self.en_passant_square {
            None => {},
            Some(t) => {
                let name = t.str();
                out.append(name.as_str());
            },
        }
        out.append("\n");
        append_cells(&mut out, self, 4);
        out.append("\t\tHalf move clock: ");
        push_decimal(&mut out, self.half_move_clock);
        out.append("\n");
        append_cells(&mut out, self, 3);
        out.append("\t\tFull move clock: ");
        push_decimal(&mut out, self.full_move_clock);
        out.append("\n");
        append_cells(&mut out, self, 2);
        out.append("\n");
        append_cells(&mut out, self, 1);
        out.append("\n");
        append_cells(&mut out, self, 0);
        out.append(" \n");
        proof {
            assert(out@ =~= full_state_of(self@));
        }
        out
    }
}

impl crate::board::BoardState {
    /// Builds a position from six space-separated FEN fields: piece
    /// placement, side to move, castling rights, en-passant target, and the
    /// two clocks. The first malformed field names the error; the fields
    /// are checked left to right.
    pub fn from_fen(fen: &str) -> (r: Result<crate::board::BoardState, FenError>)
        ensures
            match r {
                Ok(b) => parse_fen(fen@) == Ok::<BoardModel, FenError>(b@),
                Err(e) => parse_fen(fen@) == Err::<BoardModel, FenError>(e),
            },
    {
        let n = fen.unicode_len();
        let mut chars: Vec<char> = Vec::new();
        let mut i: usize = 0;
        while i < n
            invariant
                i <= n,
                n == fen@.len(),
                chars@ == fen@.subrange(0, i as int),
            decreases n - i,
        {
            chars.push(fen.get_char(i));
            proof {
                assert(chars@ =~= fen@.subrange(0, i + 1));
            }
            i = i + 1;
        }
        proof {
            assert(chars@ =~= fen@);
        }
        let fields = split_fields(&chars);
        if fields.len() != 6 {
            return Err(FenError::WrongFieldCount);
        }
        let board = match parse_placement_field(&fields[0]) {
            Some(b) => b,
            None => { return Err(FenError::BadPlacement) },
        };
        let color_to_move = match parse_turn_field(&fields[1]) {
            Some(c) => c,
            None => { return Err(FenError::BadSideToMove) },
        };
        let castling_rights = match parse_rights_field(&fields[2]) {
            Some(c) => c,
            None => { return Err(FenError::BadCastling) },
        };
        let en_passant_square = match parse_ep_field(&fields[3]) {
            Some(e) => e,
            None => { return Err(FenError::BadEnPassant) },
        };
        let half_move_clock = match parse_clock_field(&fields[4]) {
            Some(h) => h,
            None => { return Err(FenError::BadClock) },
        };
        let full_move_clock = match parse_clock_field(&fields[5]) {
            Some(h) => h,
            None => { return Err(FenError::BadClock) },
        };
        Ok(
            crate::board::BoardState {
                board,
                color_to_move,
                castling_rights,
                en_passant_square,
                half_move_clock,
                full_move_clock,
            },
        )
    }
}

} // verus!

