//! A position of a game and how a move changes it.
//!
//! In contracts a position is a [`Snapshot`]: the 64 squares, the side to
//! move, the square a pawn has just passed over, the four castling
//! permissions and the two move counters.

use vstd::prelude::*;
use crate::a_move::{MoveData, MoveType};
use crate::base::{Color, Disallowable};
use crate::board::{classic_squares, Board};
use crate::figure::{Figure, FigureType};
use crate::position::{col_of, is_square, opt_index, row_of, square_at, Position};

verus! {

/// A position as a plain value.
pub struct Snapshot {
    pub squares: Seq<Option<Figure>>,
    /// The side to move.
    pub turn: Color,
    /// The square a pawn passed over with the double step just played.
    pub ep: Option<int>,
    pub white_king_side: bool,
    pub white_queen_side: bool,
    pub black_king_side: bool,
    pub black_queen_side: bool,
    /// Half-moves played since a pawn last moved or a piece was last taken.
    pub half_move_clock: int,
    /// The number of the move to be played, from 1.
    pub full_move_no: int,
}

/// A counter one step on; the largest number a counter can hold stays.
pub open spec fn bump(n: int) -> int {
    if n < usize::MAX {
        n + 1
    } else {
        n
    }
}

/// The piece that a move puts on its destination: the piece that moves, or
/// for a promotion the new piece in the mover's color.
pub open spec fn placed(mover: Option<Figure>, move_type: MoveType) -> Option<Figure> {
    match (mover, move_type) {
        (Some(f), MoveType::PawnPromotion(p)) => Some(
            Figure { fig_type: p.figure_type(), color: f.color },
        ),
        _ => mover,
    }
}

/// The board after a move. The origin is cleared and the destination takes
/// the piece. En passant also clears the square beside the origin in the
/// destination's file; castling also carries the rook over.
pub open spec fn squares_after(squares: Seq<Option<Figure>>, mv: MoveData) -> Seq<Option<Figure>> {
    let from = mv.main_move.from@;
    let to = mv.main_move.to@;
    let moved = squares.update(from, None).update(to, placed(squares[from], mv.move_type));
    match mv.move_type {
        MoveType::EnPassant => moved.update(square_at(col_of(to), row_of(from)), None),
        MoveType::Castling(_, rook) => moved.update(rook.from@, None).update(
            rook.to@,
            squares[rook.from@],
        ),
        _ => moved,
    }
}

/// Whether `mv` starts or ends on `sq`.
pub open spec fn touches(mv: MoveData, sq: int) -> bool {
    mv.main_move.from@ == sq || mv.main_move.to@ == sq
}

/// The square that a pawn passes over when `mv` is its double step.
pub open spec fn passed_square(squares: Seq<Option<Figure>>, mv: MoveData) -> Option<int> {
    let from = mv.main_move.from@;
    let to = mv.main_move.to@;
    if squares[from] is Some && squares[from]->0.fig_type == FigureType::Pawn && col_of(from)
        == col_of(to) && (row_of(to) - row_of(from) == 2 || row_of(from) - row_of(to) == 2) {
        Some(square_at(col_of(from), (row_of(from) + row_of(to)) / 2))
    } else {
        None
    }
}

/// The position after `mv` is played in `s`.
///
/// The other side is to move. A castling permission is lost once a move
/// starts or ends on the home square of the king or rook concerned. The
/// half-move clock starts again at a pawn move or a capture.
pub open spec fn apply_move(s: Snapshot, mv: MoveData) -> Snapshot {
    Snapshot {
        squares: squares_after(s.squares, mv),
        turn: s.turn.opponent(),
        ep: passed_square(s.squares, mv),
        white_king_side: s.white_king_side && !touches(mv, 4) && !touches(mv, 7),
        white_queen_side: s.white_queen_side && !touches(mv, 4) && !touches(mv, 0),
        black_king_side: s.black_king_side && !touches(mv, 60) && !touches(mv, 63),
        black_queen_side: s.black_queen_side && !touches(mv, 60) && !touches(mv, 56),
        half_move_clock: if mv.is_pawn_move || mv.figure_captured is Some {
            0
        } else {
            bump(s.half_move_clock)
        },
        full_move_no: if s.turn == Color::Black {
            bump(s.full_move_no)
        } else {
            s.full_move_no
        },
    }
}

/// The position at the start of a game.
pub open spec fn classic_snapshot() -> Snapshot {
    Snapshot {
        squares: classic_squares(),
        turn: Color::White,
        ep: None,
        white_king_side: true,
        white_queen_side: true,
        black_king_side: true,
        black_queen_side: true,
        half_move_clock: 0,
        full_move_no: 1,
    }
}

/// The positions that a game goes through: `start`, then the position after
/// each of `moves` in turn. One more than there are moves.
pub open spec fn positions_of(start: Snapshot, moves: Seq<MoveData>) -> Seq<Snapshot>
    decreases moves.len(),
{
    if moves.len() == 0 {
        seq![start]
    } else {
        positions_of(start, moves.drop_last()).push(
            apply_move(positions_of(start, moves.drop_last()).last(), moves.last()),
        )
    }
}

/// A game has one position more than it has moves.
pub proof fn lemma_positions_len(start: Snapshot, moves: Seq<MoveData>)
    ensures
        positions_of(start, moves).len() == moves.len() + 1,
        positions_of(start, moves)[0] == start,
    decreases moves.len(),
{
    if moves.len() > 0 {
        lemma_positions_len(start, moves.drop_last());
    }
}

/// A position of a game.
#[derive(Debug, Copy, Clone, PartialEq, Eq)]
pub struct GameState {
    pub board: Board,
    /// The side to move.
    pub turn_by: Color,
    /// The square a pawn passed over with the double step just played.
    pub en_passant_intercept_pos: Option<Position>,
    pub white_king_side: Disallowable,
    pub white_queen_side: Disallowable,
    pub black_king_side: Disallowable,
    pub black_queen_side: Disallowable,
    /// Half-moves played since a pawn last moved or a piece was last taken.
    pub half_move_clock: usize,
    /// The number of the move to be played, from 1.
    pub full_move_no: usize,
}

impl View for GameState {
    type V = Snapshot;

    open spec fn view(&self) -> Snapshot {
        Snapshot {
            squares: self.board@,
            turn: self.turn_by,
            ep: opt_index(self.en_passant_intercept_pos),
            white_king_side: self.white_king_side.allowed(),
            white_queen_side: self.white_queen_side.allowed(),
            black_king_side: self.black_king_side.allowed(),
            black_queen_side: self.black_queen_side.allowed(),
            half_move_clock: self.half_move_clock as int,
            full_move_no: self.full_move_no as int,
        }
    }
}

/// The views of a list of positions.
pub open spec fn snapshots(states: Seq<GameState>) -> Seq<Snapshot> {
    Seq::new(states.len(), |i: int| states[i]@)
}

fn bumped(n: usize) -> (r: usize)
    ensures
        r == bump(n as int),
{
    if n < usize::MAX {
        n + 1
    } else {
        n
    }
}

impl GameState {
    /// The position at the start of a game.
    pub fn classic() -> (state: GameState)
        ensures
            state@ == classic_snapshot(),
    {
        GameState {
            board: Board::classic(),
            turn_by: Color::White,
            en_passant_intercept_pos: None,
            white_king_side: Disallowable::new(true),
            white_queen_side: Disallowable::new(true),
            black_king_side: Disallowable::new(true),
            black_queen_side: Disallowable::new(true),
            half_move_clock: 0,
            full_move_no: 1,
        }
    }

    /// What stands on `pos`.
    pub fn get_figure(&self, pos: Position) -> (f: Option<Figure>)
        ensures
            f == self@.squares[pos@],
            is_square(pos@),
    {
        self.board.get_figure(pos)
    }

    /// Whether nothing stands on `pos`.
    pub fn is_empty(&self, pos: Position) -> (b: bool)
        ensures
            b == (self@.squares[pos@] is None),
            is_square(pos@),
    {
        self.board.is_empty(pos)
    }

    /// The position after `mv`. This position is left as it is.
    pub fn apply(&self, mv: &MoveData) -> (next: GameState)
        ensures
            next@ == apply_move(self@, *mv),
    {
        let from = mv.main_move.from;
        let to = mv.main_move.to;
        let from_index = from.index();
        let to_index = to.index();
        let mover = self.board.get_figure(from);
        let mut board = self.board;
        proof {
            self.board.lemma_len();
        }
        let landed = match (mover, mv.move_type) {
            (Some(f), MoveType::PawnPromotion(p)) => Some(
                Figure { fig_type: p.get_figure_type(), color: f.color },
            ),
            _ => mover,
        };
        board.set_figure(from, None);
        board.set_figure(to, landed);
        match mv.move_type {
            MoveType::EnPassant => {
                let taken = Position::new_unchecked(to.column(), from.row());
                board.set_figure(taken, None);
            },
            MoveType::Castling(_, rook) => {
                let carried = self.board.get_figure(rook.from);
                board.set_figure(rook.from, None);
                board.set_figure(rook.to, carried);
            },
            _ => {},
        }
        let is_pawn = match mover {
            Some(f) => f.fig_type == FigureType::Pawn,
            None => false,
        };
        let from_row = from.row();
        let to_row = to.row();
        let passed = if is_pawn && from.column() == to.column() && (to_row == from_row + 2
            || from_row == to_row + 2) {
            Some(Position::new_unchecked(from.column(), (from_row + to_row) / 2))
        } else {
            None
        };
        let mut white_king_side = self.white_king_side;
        let mut white_queen_side = self.white_queen_side;
        let mut black_king_side = self.black_king_side;
        let mut black_queen_side = self.black_queen_side;
        if from_index == 4 || to_index == 4 || from_index == 7 || to_index == 7 {
            white_king_side.disallow();
        }
        if from_index == 4 || to_index == 4 || from_index == 0 || to_index == 0 {
            white_queen_side.disallow();
        }
        if from_index == 60 || to_index == 60 || from_index == 63 || to_index == 63 {
            black_king_side.disallow();
        }
        if from_index == 60 || to_index == 60 || from_index == 56 || to_index == 56 {
            black_queen_side.disallow();
        }
        let half_move_clock = if mv.is_pawn_move || mv.figure_captured.is_some() {
            0
        } else {
            bumped(self.half_move_clock)
        };
        let full_move_no = match self.turn_by {
            Color::Black => bumped(self.full_move_no),
            Color::White => self.full_move_no,
        };
        let next = GameState {
            board,
            turn_by: self.turn_by.toggle(),
            en_passant_intercept_pos: passed,
            white_king_side,
            white_queen_side,
            black_king_side,
            black_queen_side,
            half_move_clock,
            full_move_no,
        };
        proof {
            assert(next@.squares == squares_after(self@.squares, *mv));
            assert(next@.ep == passed_square(self@.squares, *mv));
        }
        next
    }
}

} // verus!
