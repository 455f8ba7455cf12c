//! Squares of the board.
//!
//! In contracts a square is its index, an `int` in `0..64`: the index of the
//! square in file `col` and rank `row`, both counted from zero, is
//! `row * 8 + col`. So `a1` is 0, `h1` is 7 and `h8` is 63.

use vstd::prelude::*;
use crate::direction::Direction;
use crate::errors::ChessError;

verus! {

/// Whether file `col` and rank `row` name a square.
pub open spec fn on_board(col: int, row: int) -> bool {
    0 <= col < 8 && 0 <= row < 8
}

/// Whether `sq` is the index of a square.
pub open spec fn is_square(sq: int) -> bool {
    0 <= sq < 64
}

/// The index of the square in file `col` and rank `row`.
pub open spec fn square_at(col: int, row: int) -> int {
    row * 8 + col
}

/// The file of the square with index `sq`.
pub open spec fn col_of(sq: int) -> int {
    sq % 8
}

/// The rank of the square with index `sq`.
pub open spec fn row_of(sq: int) -> int {
    sq / 8
}

/// The square `dx` files and `dy` ranks away from `sq`, if the board has one.
pub open spec fn shifted(sq: int, dx: int, dy: int) -> Option<int> {
    if on_board(col_of(sq) + dx, row_of(sq) + dy) {
        Some(square_at(col_of(sq) + dx, row_of(sq) + dy))
    } else {
        None
    }
}

/// The neighbour of `sq` in direction `d`, if the board has one.
pub open spec fn stepped(sq: int, d: Direction) -> Option<int> {
    shifted(sq, d.dx(), d.dy())
}

/// The letter of file `col`: `'a'` for 0 up to `'h'` for 7.
pub open spec fn file_char(col: int) -> char {
    (97 + col) as char
}

/// The digit of rank `row`: `'1'` for 0 up to `'8'` for 7.
pub open spec fn rank_char(row: int) -> char {
    (49 + row) as char
}

/// The two characters that name the square `sq`, file letter first.
pub open spec fn square_text(sq: int) -> Seq<char> {
    seq![file_char(col_of(sq)), rank_char(row_of(sq))]
}

/// What reading `text` as a square gives: the square's index, or the reason
/// why the text names none. The length is looked at first, then the file
/// letter, then the rank digit.
pub open spec fn parse_square(text: Seq<char>) -> Result<int, ChessError> {
    if text.len() != 2 {
        Err(ChessError::WrongLength(text.len() as usize))
    } else if !('a' <= text[0] <= 'h') {
        Err(ChessError::BadColumn(text[0]))
    } else if !('1' <= text[1] <= '8') {
        Err(ChessError::BadRow(text[1]))
    } else {
        Ok(square_at(text[0] as int - 97, text[1] as int - 49))
    }
}

/// The index of an optional square.
pub open spec fn opt_index(p: Option<Position>) -> Option<int> {
    match p {
        Some(p) => Some(p@),
        None => None,
    }
}

/// A square of the board. Every value of this type is one of the 64 squares.
#[derive(Debug, Copy, Clone, PartialEq, Eq, Hash, Structural)]
pub struct Position {
    index: u8,
}

impl View for Position {
    type V = int;

    closed spec fn view(&self) -> int {
        self.index as int
    }
}

impl Position {
    #[verifier::type_invariant]
    spec fn in_range(self) -> bool {
        self.index < 64
    }

    /// The square with index `sq`, for `sq` in `0..64`.
    pub closed spec fn at(sq: int) -> Position {
        Position { index: sq as u8 }
    }

    /// Every square is the one that `at` gives for its index.
    pub broadcast proof fn lemma_view_at(p: Position)
        ensures
            Position::at(#[trigger] p@) == p,
    {
    }

    /// The file of this square, from 0 for `a`.
    pub open spec fn col(self) -> int {
        col_of(self@)
    }

    /// The rank of this square, from 0 for the first rank.
    pub open spec fn rank(self) -> int {
        row_of(self@)
    }

    /// Squares with the same index are the same square.
    pub proof fn lemma_same_square(p: Position, q: Position)
        requires
            p@ == q@,
        ensures
            p == q,
    {
    }

    /// The square with the given index, if there is one.
    pub fn from_index(index: usize) -> (r: Option<Position>)
        ensures
            match r {
                Some(p) => index < 64 && p@ == index,
                None => index >= 64,
            },
    {
        if index < 64 {
            Some(Position { index: index as u8 })
        } else {
            None
        }
    }

    /// The square in the given file and rank, both counted from zero.
    pub fn new_unchecked(column: usize, row: usize) -> (p: Position)
        requires
            column < 8,
            row < 8,
        ensures
            p@ == square_at(column as int, row as int),
    {
        Position { index: (row * 8 + column) as u8 }
    }

    /// The index of this square.
    pub fn index(&self) -> (i: usize)
        ensures
            i == self@,
            i < 64,
    {
        proof {
            use_type_invariant(self);
        }
        self.index as usize
    }

    /// The file of this square, from 0 for `a`.
    pub fn column(&self) -> (c: usize)
        ensures
            c == self.col(),
            c < 8,
    {
        proof {
            use_type_invariant(self);
        }
        (self.index % 8) as usize
    }

    /// The rank of this square, from 0 for the first rank.
    pub fn row(&self) -> (r: usize)
        ensures
            r == self.rank(),
            r < 8,
    {
        proof {
            use_type_invariant(self);
        }
        (self.index / 8) as usize
    }

    /// The neighbouring square in the given direction, or `None` at the
    /// edge of the board. Files and ranks do not wrap around.
    pub fn step(&self, direction: Direction) -> (r: Option<Position>)
        ensures
            opt_index(r) == stepped(self@, direction),
    {
        let col = self.column();
        let row = self.row();
        let (left, right): (bool, bool) = match direction {
            Direction::UpLeft | Direction::Left | Direction::DownLeft => (true, false),
            Direction::UpRight | Direction::Right | Direction::DownRight => (false, true),
            _ => (false, false),
        };
        let (down, up): (bool, bool) = match direction {
            Direction::DownLeft | Direction::Down | Direction::DownRight => (true, false),
            Direction::UpLeft | Direction::Up | Direction::UpRight => (false, true),
            _ => (false, false),
        };
        if (left && col == 0) || (right && col == 7) || (down && row == 0) || (up && row == 7) {
            return None;
        }
        let new_col: usize = if left {
            col - 1
        } else if right {
            col + 1
        } else {
            col
        };
        let new_row: usize = if down {
            row - 1
        } else if up {
            row + 1
        } else {
            row
        };
        Some(Position::new_unchecked(new_col, new_row))
    }

    /// The neighbouring square in the given direction, for a caller who
    /// knows that there is one.
    pub fn step_unchecked(&self, direction: Direction) -> (p: Position)
        requires
            stepped(self@, direction) is Some,
        ensures
            Some(p@) == stepped(self@, direction),
    {
        match self.step(direction) {
            Some(p) => p,
            None => *self,
        }
    }

    /// The square in the same file that lies as far from the eighth rank as
    /// this one lies from the first.
    pub fn toggle_row(&self) -> (p: Position)
        ensures
            p@ == square_at(self.col(), 7 - self.rank()),
    {
        Position::new_unchecked(self.column(), 7 - self.row())
    }

    /// The letter of this square's file.
    pub fn column_char(&self) -> (c: char)
        ensures
            c == file_char(self.col()),
    {
        (97u8 + self.column() as u8) as char
    }

    /// The digit of this square's rank.
    pub fn row_char(&self) -> (c: char)
        ensures
            c == rank_char(self.rank()),
    {
        (49u8 + self.row() as u8) as char
    }

    /// Reads a square from its two-character name, such as `e4`.
    pub fn from_str(code: &str) -> (r: Result<Position, ChessError>)
        ensures
            match r {
                Ok(p) => parse_square(code@) == Ok::<int, ChessError>(p@),
                Err(e) => parse_square(code@) == Err::<int, ChessError>(e),
            },
    {
        let n = code.unicode_len();
        if n != 2 {
            return Err(ChessError::WrongLength(n));
        }
        let file = code.get_char(0);
        let rank = code.get_char(1);
        if !('a' <= file && file <= 'h') {
            return Err(ChessError::BadColumn(file));
        }
        if !('1' <= rank && rank <= '8') {
            return Err(ChessError::BadRow(rank));
        }
        let col = (file as u8 - 97u8) as usize;
        let row = (rank as u8 - 49u8) as usize;
        Ok(Position::new_unchecked(col, row))
    }

    /// Reads a square from the two characters of `chars` that start at `at`.
    pub fn from_chars(chars: &Vec<char>, at: usize) -> (r: Result<Position, ChessError>)
        requires
            at + 2 <= chars.len(),
        ensures
            match r {
                Ok(p) => parse_square(chars@.subrange(at as int, at + 2)) == Ok::<int, ChessError>(
                    p@,
                ),
                Err(e) => parse_square(chars@.subrange(at as int, at + 2)) == Err::<
                    int,
                    ChessError,
                >(e),
            },
    {
        let file = chars[at];
        let rank = chars[at + 1];
        if !('a' <= file && file <= 'h') {
            return Err(ChessError::BadColumn(file));
        }
        if !('1' <= rank && rank <= '8') {
            return Err(ChessError::BadRow(rank));
        }
        let col = (file as u8 - 97u8) as usize;
        let row = (rank as u8 - 49u8) as usize;
        Ok(Position::new_unchecked(col, row))
    }

    /// The two-character name of this square, such as `e4`.
    pub fn to_string(&self) -> (s: String)
        ensures
            s@ == square_text(self@),
    {
        let mut s = String::new();
        s.push(self.column_char());
        s.push(self.row_char());
        proof {
            assert(s@ =~= square_text(self@));
        }
        s
    }
}

/// Reading the name of a square gives the square back.
pub proof fn lemma_square_text_round_trip(sq: int)
    requires
        is_square(sq),
    ensures
        parse_square(square_text(sq)) == Ok::<int, ChessError>(sq),
{
}

} // verus!
