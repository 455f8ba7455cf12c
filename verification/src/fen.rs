//! Positions written as FEN records.
//!
//! A record has six fields with one space between them: the pieces, rank
//! by rank from the eighth down, with a digit for each run of empty
//! squares and `/` between ranks; the side to move; the castling
//! permissions that are left, or `-`; the en-passant square, or `-`; the
//! half-move clock; and the number of the move.

use vstd::prelude::*;
use crate::figure::Figure;
use crate::game::{GameState, Snapshot};
use crate::position::{square_at, square_text, Position};
use crate::text::{decimal, digit_char, push_decimal};

verus! {

/// The digit for a run of `empties` empty squares; nothing for no run.
pub open spec fn run_text(empties: int) -> Seq<char> {
    if empties > 0 {
        seq![digit_char(empties)]
    } else {
        Seq::<char>::empty()
    }
}

/// The part of rank `row` from file `col` on, when `empties` empty squares
/// come just before it.
pub open spec fn rank_text(squares: Seq<Option<Figure>>, row: int, col: int, empties: int) -> Seq<
    char,
>
    decreases 8 - col,
{
    if col >= 8 {
        run_text(empties)
    } else {
        match squares[square_at(col, row)] {
            None => rank_text(squares, row, col + 1, empties + 1),
            Some(f) => run_text(empties).push(f.fen_letter()) + rank_text(
                squares,
                row,
                col + 1,
                0,
            ),
        }
    }
}

/// The ranks from `row` down to the first, with `/` between them.
pub open spec fn placement_from(squares: Seq<Option<Figure>>, row: int) -> Seq<char>
    decreases row,
{
    if row <= 0 {
        rank_text(squares, 0, 0, 0)
    } else {
        rank_text(squares, row, 0, 0).push('/') + placement_from(squares, row - 1)
    }
}

/// A letter if the permission is held, nothing if not.
pub open spec fn right_text(held: bool, c: char) -> Seq<char> {
    if held {
        seq![c]
    } else {
        Seq::<char>::empty()
    }
}

/// The castling field: `K`, `Q`, `k`, `q` for the permissions held, in
/// this order, or `-` if none is.
pub open spec fn castling_text(s: Snapshot) -> Seq<char> {
    if !s.white_king_side && !s.white_queen_side && !s.black_king_side && !s.black_queen_side {
        seq!['-']
    } else {
        right_text(s.white_king_side, 'K') + right_text(s.white_queen_side, 'Q') + right_text(
            s.black_king_side,
            'k',
        ) + right_text(s.black_queen_side, 'q')
    }
}

/// The en-passant field.
pub open spec fn passing_text(ep: Option<int>) -> Seq<char> {
    match ep {
        Some(sq) => square_text(sq),
        None => seq!['-'],
    }
}

/// The FEN record of a position.
pub open spec fn fen(s: Snapshot) -> Seq<char> {
    placement_from(s.squares, 7).push(' ').push(s.turn.fen_char()).push(' ') + castling_text(
        s,
    ).push(' ') + passing_text(s.ep).push(' ') + decimal(s.half_move_clock).push(' ') + decimal(
        s.full_move_no,
    )
}

/// Appends the digit for a run of empty squares, if there is a run.
fn push_run(text: &mut String, empties: u8)
    requires
        empties <= 8,
    ensures
        final(text)@ == old(text)@ + run_text(empties as int),
{
    if empties > 0 {
        text.push((48u8 + empties) as char);
    }
    proof {
        assert(text@ =~= old(text)@ + run_text(empties as int));
    }
}

impl GameState {
    /// Appends one rank of the board.
    fn push_rank(&self, text: &mut String, row: usize)
        requires
            row < 8,
        ensures
            final(text)@ == old(text)@ + rank_text(self@.squares, row as int, 0, 0),
    {
        let ghost squares = self@.squares;
        let ghost start = text@;
        let mut empties: u8 = 0;
        let mut col: usize = 0;
        while col < 8
            invariant
                0 <= col <= 8,
                row < 8,
                empties <= col,
                squares == self@.squares,
                text@ + rank_text(squares, row as int, col as int, empties as int) == start
                    + rank_text(squares, row as int, 0, 0),
            decreases 8 - col,
        {
            let ghost before = text@;
            match self.board.get_figure(Position::new_unchecked(col, row)) {
                None => {
                    empties = empties + 1;
                },
                Some(f) => {
                    push_run(text, empties);
                    text.push(f.get_fen_char());
                    proof {
                        assert(text@ + rank_text(squares, row as int, col + 1, 0) =~= before
                            + rank_text(squares, row as int, col as int, empties as int));
                    }
                    empties = 0;
                },
            }
            col = col + 1;
        }
        push_run(text, empties);
    }

    /// The FEN record of this position.
    pub fn get_fen(&self) -> (text: String)
        ensures
            text@ == fen(self@),
    {
        let ghost squares = self@.squares;
        let mut text = String::new();
        let mut row: usize = 7;
        let ghost empty = text@;
        proof {
            assert(empty + placement_from(squares, 7) =~= placement_from(squares, 7));
        }
        while row > 0
            invariant
                0 <= row <= 7,
                squares == self@.squares,
                text@ + placement_from(squares, row as int) == placement_from(squares, 7),
            decreases row,
        {
            let ghost before = text@;
            self.push_rank(&mut text, row);
            text.push('/');
            proof {
                assert(text@ + placement_from(squares, row - 1) =~= before + placement_from(
                    squares,
                    row as int,
                ));
            }
            row = row - 1;
        }
        self.push_rank(&mut text, 0);
        assert(text@ == placement_from(squares, 7));
        text.push(' ');
        text.push(self.turn_by.get_fen_char());
        text.push(' ');
        let ghost head = text@;
        let wk = self.white_king_side.is_still_allowed();
        let wq = self.white_queen_side.is_still_allowed();
        let bk = self.black_king_side.is_still_allowed();
        let bq = self.black_queen_side.is_still_allowed();
        if !wk && !wq && !bk && !bq {
            text.push('-');
        } else {
            if wk {
                text.push('K');
            }
            if wq {
                text.push('Q');
            }
            if bk {
                text.push('k');
            }
            if bq {
                text.push('q');
            }
        }
        assert(text@ =~= head + castling_text(self@));
        text.push(' ');
        let ghost head2 = text@;
        match self.en_passant_intercept_pos {
            Some(pos) => {
                text.push(pos.column_char());
                text.push(pos.row_char());
            },
            None => {
                text.push('-');
            },
        }
        assert(text@ =~= head2 + passing_text(self@.ep));
        text.push(' ');
        push_decimal(&mut text, self.half_move_clock);
        text.push(' ');
        push_decimal(&mut text, self.full_move_no);
        proof {
            assert(text@ =~= fen(self@));
        }
        text
    }
}

} // verus!
