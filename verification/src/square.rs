use vstd::prelude::*;
use vstd::string::*;

verus! {

/// One square of the 8x8 board. Row 0 is rank 1, column 0 is file a.
/// "No square" (the missing en-passant target) is `Option::<Position>::None`
/// rather than a reserved out-of-range sentinel value.
#[derive(Clone, Copy, Debug, PartialEq, Eq, Structural)]
pub struct Position {
    pub row: u8,
    pub col: u8,
}

/// The file letter of column `c`.
pub open spec fn file_char(c: int) -> char {
    if c == 0 {
        'a'
    } else if c == 1 {
        'b'
    } else if c == 2 {
        'c'
    } else if c == 3 {
        'd'
    } else if c == 4 {
        'e'
    } else if c == 5 {
        'f'
    } else if c == 6 {
        'g'
    } else {
        'h'
    }
}

/// The rank digit of row `r`.
pub open spec fn rank_char(r: int) -> char {
    if r == 0 {
        '1'
    } else if r == 1 {
        '2'
    } else if r == 2 {
        '3'
    } else if r == 3 {
        '4'
    } else if r == 4 {
        '5'
    } else if r == 5 {
        '6'
    } else if r == 6 {
        '7'
    } else {
        '8'
    }
}

/// The column named by a file letter, case-insensitively.
pub open spec fn file_of_char(ch: char) -> Option<u8> {
    if ch == 'a' || ch == 'A' {
        Some(0u8)
    } else if ch == 'b' || ch == 'B' {
        Some(1u8)
    } else if ch == 'c' || ch == 'C' {
        Some(2u8)
    } else if ch == 'd' || ch == 'D' {
        Some(3u8)
    } else if ch == 'e' || ch == 'E' {
        Some(4u8)
    } else if ch == 'f' || ch == 'F' {
        Some(5u8)
    } else if ch == 'g' || ch == 'G' {
        Some(6u8)
    } else if ch == 'h' || ch == 'H' {
        Some(7u8)
    } else {
        None
    }
}

/// The row named by a rank digit.
pub open spec fn rank_of_char(ch: char) -> Option<u8> {
    if ch == '1' {
        Some(0u8)
    } else if ch == '2' {
        Some(1u8)
    } else if ch == '3' {
        Some(2u8)
    } else if ch == '4' {
        Some(3u8)
    } else if ch == '5' {
        Some(4u8)
    } else if ch == '6' {
        Some(5u8)
    } else if ch == '7' {
        Some(6u8)
    } else if ch == '8' {
        Some(7u8)
    } else {
        None
    }
}

/// The two-character algebraic name of a square: file letter then rank digit.
pub open spec fn notation_of(p: Position) -> Seq<char> {
    seq![file_char(p.col as int), rank_char(p.row as int)]
}

/// The square named by a two-character algebraic name, or `None` when the
/// text has another length or an out-of-range character.
pub open spec fn square_of_notation(s: Seq<char>) -> Option<Position> {
    if s.len() == 2 {
        match (file_of_char(s[0]), rank_of_char(s[1])) {
            (Some(c), Some(r)) => Some(Position { row: r, col: c }),
            _ => None,
        }
    } else {
        None
    }
}

/// The file letter of column `col` as a one-character string slice.
fn file_str(col: u8) -> (s: &'static str)
    requires
        col < 8,
    ensures
        s@ == seq![file_char(col as int)],
{
    proof {
        reveal_strlit("a");
        reveal_strlit("b");
        reveal_strlit("c");
        reveal_strlit("d");
        reveal_strlit("e");
        reveal_strlit("f");
        reveal_strlit("g");
        reveal_strlit("h");
    }
    match col {
        0 => "a",
        1 => "b",
        2 => "c",
        3 => "d",
        4 => "e",
        5 => "f",
        6 => "g",
        _ => "h",
    }
}

/// The rank digit of row `row` as a one-character string slice.
fn rank_str(row: u8) -> (s: &'static str)
    requires
        row < 8,
    ensures
        s@ == seq![rank_char(row as int)],
{
    proof {
        reveal_strlit("1");
        reveal_strlit("2");
        reveal_strlit("3");
        reveal_strlit("4");
        reveal_strlit("5");
        reveal_strlit("6");
        reveal_strlit("7");
        reveal_strlit("8");
    }
    match row {
        0 => "1",
        1 => "2",
        2 => "3",
        3 => "4",
        4 => "5",
        5 => "6",
        6 => "7",
        _ => "8",
    }
}

/// True exactly when `position` lies outside the 8x8 board. Move generation
/// tests bounds with this before any board lookup.
pub fn is_position_out_of_bounds(position: Position) -> (r: bool)
    ensures
        r == !position.wf(),
{
    position.row >= 8 || position.col >= 8
}

/// True exactly when `index` lies outside the 64-entry board array.
pub fn is_index_out_of_bounds(index: usize) -> (r: bool)
    ensures
        r == (index >= 64),
{
    index >= 64
}

impl Position {
    /// The square lies on the board.
    pub open spec fn wf(self) -> bool {
        self.row < 8 && self.col < 8
    }

    /// The board index of the square: row major, 8 columns.
    pub open spec fn idx(self) -> int {
        self.row * 8 + self.col
    }

    /// The board-array index of `pos`.
    pub fn index_from_position(pos: Position) -> (i: usize)
        requires
            pos.wf(),
        ensures
            i == pos.idx(),
            i < 64,
    {
        (pos.row as usize) * 8 + (pos.col as usize)
    }

    /// The square at board-array index `index`.
    pub fn position_from_indices(index: usize) -> (p: Position)
        requires
            index < 64,
        ensures
            p.wf(),
            p.idx() == index,
            p.row == index as int / 8,
            p.col == index as int % 8,
    {
        let col = (index % 8) as u8;
        let row = (index / 8) as u8;
        Position { row, col }
    }

    /// The square named by `input` in algebraic notation (file letter `a`-`h`,
    /// case-insensitive, then rank digit `1`-`8`), or `None` for any other
    /// length or character.
    pub fn position_from_string(input: &str) -> (r: Option<Position>)
        ensures
            r == square_of_notation(input@),
    {
        let n = input.unicode_len();
        if n != 2 {
            return None;
        }
        let c0 = input.get_char(0);
        let c1 = input.get_char(1);
        let col_opt: Option<u8> = match c0 {
            'a' | 'A' => Some(0),
            'b' | 'B' => Some(1),
            'c' | 'C' => Some(2),
            'd' | 'D' => Some(3),
            'e' | 'E' => Some(4),
            'f' | 'F' => Some(5),
            'g' | 'G' => Some(6),
            'h' | 'H' => Some(7),
            _ => None,
        };
        let row_opt: Option<u8> = match c1 {
            '1' => Some(0),
            '2' => Some(1),
            '3' => Some(2),
            '4' => Some(3),
            '5' => Some(4),
            '6' => Some(5),
            '7' => Some(6),
            '8' => Some(7),
            _ => None,
        };
        match (col_opt, row_opt) {
            (Some(c), Some(r)) => Some(Position { row: r, col: c }),
            _ => None,
        }
    }

    /// The algebraic name of the square, file letter then rank digit.
    pub fn str(&self) -> (s: String)
        requires
            self.wf(),
        ensures
            s@ == notation_of(*self),
    {
        let f = file_str(self.col);
        let mut s = f.to_owned();
        s.append(rank_str(self.row));
        s
    }
}

} // verus!
