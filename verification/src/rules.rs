//! Which written moves can be played in a position, and what kind of move
//! each one is there.

use vstd::prelude::*;
use crate::a_move::{CastlingType, FromTo, Move, MoveData, MoveType};
use crate::base::Color;
use crate::errors::ChessError;
use crate::figure::{Figure, FigureType};
use crate::game::{apply_move, GameState, Snapshot};
use crate::position::{col_of, row_of, Position};
use crate::reachable::{can_reach, get_positions_to_reach_target_from, indices};

verus! {

/// The rank on which the pawns of the given side promote.
pub open spec fn last_row(color: Color) -> int {
    match color {
        Color::White => 7,
        Color::Black => 0,
    }
}

/// The square on which the king of the given side starts.
pub open spec fn king_home(color: Color) -> int {
    match color {
        Color::White => 4,
        Color::Black => 60,
    }
}

/// Whether a piece of the side to move stands on `from`.
pub open spec fn mover_ready(s: Snapshot, from: int) -> bool {
    s.squares[from] is Some && s.squares[from]->0.color == s.turn
}

/// Whether a pawn stands on `from` and `to` lies on the rank where it
/// promotes.
pub open spec fn is_promotion_step(squares: Seq<Option<Figure>>, from: int, to: int) -> bool {
    &&& squares[from] is Some
    &&& squares[from]->0.fig_type == FigureType::Pawn
    &&& row_of(to) == last_row(squares[from]->0.color)
}

/// The wing on which the move from `from` to `to` castles: a king stands on
/// its home square `from`, and `to` lies two files away in the same rank.
pub open spec fn castling_side(squares: Seq<Option<Figure>>, from: int, to: int) -> Option<
    CastlingType,
> {
    if squares[from] is Some && squares[from]->0.fig_type == FigureType::King && from
        == king_home(squares[from]->0.color) {
        if to == from + 2 {
            Some(CastlingType::KingSide)
        } else if to == from - 2 {
            Some(CastlingType::QueenSide)
        } else {
            None
        }
    } else {
        None
    }
}

/// The squares between which the rook travels when the king on `king_from`
/// castles on the given wing.
pub open spec fn rook_squares(king_from: int, side: CastlingType) -> (int, int) {
    match side {
        CastlingType::KingSide => (king_from + 3, king_from + 1),
        CastlingType::QueenSide => (king_from - 4, king_from - 1),
    }
}

/// Whether the side still holds the permission to castle on the wing.
pub open spec fn castling_right(s: Snapshot, color: Color, side: CastlingType) -> bool {
    match (color, side) {
        (Color::White, CastlingType::KingSide) => s.white_king_side,
        (Color::White, CastlingType::QueenSide) => s.white_queen_side,
        (Color::Black, CastlingType::KingSide) => s.black_king_side,
        (Color::Black, CastlingType::QueenSide) => s.black_queen_side,
    }
}

/// Whether the side may castle on the wing: it still holds the permission,
/// its rook stands on the rook's home square, and the squares between king
/// and rook are empty. Attacks on the king's path are not looked at.
pub open spec fn castling_allowed(s: Snapshot, color: Color, side: CastlingType) -> bool {
    let k = king_home(color);
    &&& castling_right(s, color, side)
    &&& s.squares[rook_squares(k, side).0] == Some(Figure { fig_type: FigureType::Rook, color })
    &&& match side {
        CastlingType::KingSide => s.squares[k + 1] is None && s.squares[k + 2] is None,
        CastlingType::QueenSide => s.squares[k - 1] is None && s.squares[k - 2] is None
            && s.squares[k - 3] is None,
    }
}

/// Whether the piece on `from` can be moved to `to`: it belongs to the side
/// to move, no piece of that side stands on `to`, and either the move
/// castles and castling is allowed, or the piece reaches `to` by the rules
/// of its kind.
pub open spec fn is_playable(s: Snapshot, from: int, to: int) -> bool {
    &&& mover_ready(s, from)
    &&& !(s.squares[to] is Some && s.squares[to]->0.color == s.turn)
    &&& match castling_side(s.squares, from, to) {
        Some(side) => castling_allowed(s, s.turn, side),
        None => can_reach(s.squares, s.ep, s.turn, from, to),
    }
}

/// The kind of piece that a move by `mover` to `to` takes: the piece on
/// `to`, if it belongs to the other side.
pub open spec fn taken(squares: Seq<Option<Figure>>, mover: Figure, to: int) -> Option<FigureType> {
    match squares[to] {
        Some(g) => if g.color != mover.color {
            Some(g.fig_type)
        } else {
            None
        },
        None => None,
    }
}

/// What kind of move `mv` is in position `s`.
///
/// A king that goes two files sideways from its home square castles. A pawn
/// that reaches the last rank promotes to the piece that `mv` names. A pawn
/// that goes diagonally to the empty en-passant square takes in passing.
/// Every other move is normal and takes the piece of the other side on its
/// destination, if there is one.
pub open spec fn classify(s: Snapshot, mv: Move) -> MoveData {
    let from = mv.from_to.from@;
    let to = mv.from_to.to@;
    match s.squares[from] {
        None => MoveData {
            main_move: mv.from_to,
            figure_captured: None,
            is_pawn_move: false,
            move_type: MoveType::Normal,
        },
        Some(f) => match castling_side(s.squares, from, to) {
            Some(side) => MoveData {
                main_move: mv.from_to,
                figure_captured: None,
                is_pawn_move: false,
                move_type: MoveType::Castling(
                    side,
                    FromTo {
                        from: Position::at(rook_squares(from, side).0),
                        to: Position::at(rook_squares(from, side).1),
                    },
                ),
            },
            None => if f.fig_type == FigureType::Pawn {
                if row_of(to) == last_row(f.color) && mv.promotion_type is Some {
                    MoveData {
                        main_move: mv.from_to,
                        figure_captured: taken(s.squares, f, to),
                        is_pawn_move: true,
                        move_type: MoveType::PawnPromotion(mv.promotion_type->0),
                    }
                } else if col_of(to) != col_of(from) && s.squares[to] is None && s.ep == Some(
                    to,
                ) {
                    MoveData {
                        main_move: mv.from_to,
                        figure_captured: Some(FigureType::Pawn),
                        is_pawn_move: true,
                        move_type: MoveType::EnPassant,
                    }
                } else {
                    MoveData {
                        main_move: mv.from_to,
                        figure_captured: taken(s.squares, f, to),
                        is_pawn_move: true,
                        move_type: MoveType::Normal,
                    }
                }
            } else {
                MoveData {
                    main_move: mv.from_to,
                    figure_captured: taken(s.squares, f, to),
                    is_pawn_move: false,
                    move_type: MoveType::Normal,
                }
            },
        },
    }
}

/// The move that playing `mv` in `s` makes, or why it cannot be played.
/// The reasons are looked for in this order: no piece of the side to move
/// on the origin; a pawn reaches the last rank and `mv` names no promotion;
/// `mv` names a promotion and no pawn reaches the last rank; the piece
/// cannot go to the destination.
pub open spec fn check_move(s: Snapshot, mv: Move) -> Result<MoveData, ChessError> {
    let from = mv.from_to.from@;
    let to = mv.from_to.to@;
    if !mover_ready(s, from) {
        Err(ChessError::NoPieceToMove(from as usize))
    } else if is_promotion_step(s.squares, from, to) && mv.promotion_type is None {
        Err(ChessError::MissingPromotion)
    } else if !is_promotion_step(s.squares, from, to) && mv.promotion_type is Some {
        Err(ChessError::UnexpectedPromotion(mv.promotion_type->0.letter()))
    } else if !is_playable(s, from, to) {
        Err(ChessError::Unreachable(from as usize, to as usize))
    } else {
        Ok(classify(s, mv))
    }
}

/// A move that can be played leaves its square.
pub proof fn lemma_playable_moves_away(s: Snapshot, from: int, to: int)
    requires
        is_playable(s, from, to),
    ensures
        from != to,
{
}

/// Whether `p` is one of `list`.
fn holds_square(list: &Vec<Position>, p: Position) -> (b: bool)
    ensures
        b == indices(list@).contains(p@),
{
    let mut i: usize = 0;
    while i < list.len()
        invariant
            0 <= i <= list.len(),
            forall|k: int| 0 <= k < i ==> indices(list@)[k] != p@,
        decreases list.len() - i,
    {
        if list[i] == p {
            assert(indices(list@)[i as int] == p@);
            return true;
        }
        proof {
            if list@[i as int]@ == p@ {
                Position::lemma_same_square(list@[i as int], p);
            }
        }
        i = i + 1;
    }
    false
}

impl GameState {
    /// Whether a piece of the side to move stands on `from`.
    pub fn has_mover_on(&self, from: Position) -> (b: bool)
        ensures
            b == mover_ready(self@, from@),
    {
        match self.board.get_figure(from) {
            Some(f) => f.color == self.turn_by,
            None => false,
        }
    }

    /// Whether a pawn stands on `from` and `to` lies on the rank where it
    /// promotes.
    pub fn is_promotion_step(&self, from: Position, to: Position) -> (b: bool)
        ensures
            b == is_promotion_step(self@.squares, from@, to@),
    {
        match self.board.get_figure(from) {
            Some(f) => f.fig_type == FigureType::Pawn && to.row() == match f.color {
                Color::White => 7,
                Color::Black => 0,
            },
            None => false,
        }
    }

    /// The wing on which the move from `from` to `to` castles, if it does.
    pub fn castling_side(&self, from: Position, to: Position) -> (side: Option<CastlingType>)
        ensures
            side == castling_side(self@.squares, from@, to@),
    {
        match self.board.get_figure(from) {
            Some(f) => {
                let home: usize = match f.color {
                    Color::White => 4,
                    Color::Black => 60,
                };
                if f.fig_type == FigureType::King && from.index() == home {
                    if to.index() == home + 2 {
                        Some(CastlingType::KingSide)
                    } else if to.index() == home - 2 {
                        Some(CastlingType::QueenSide)
                    } else {
                        None
                    }
                } else {
                    None
                }
            },
            None => None,
        }
    }

    /// Whether the side may castle on the wing.
    pub fn castling_allowed(&self, color: Color, side: CastlingType) -> (b: bool)
        ensures
            b == castling_allowed(self@, color, side),
    {
        let row: usize = match color {
            Color::White => 0,
            Color::Black => 7,
        };
        let right = match (color, side) {
            (Color::White, CastlingType::KingSide) => self.white_king_side.is_still_allowed(),
            (Color::White, CastlingType::QueenSide) => self.white_queen_side.is_still_allowed(),
            (Color::Black, CastlingType::KingSide) => self.black_king_side.is_still_allowed(),
            (Color::Black, CastlingType::QueenSide) => self.black_queen_side.is_still_allowed(),
        };
        if !right {
            return false;
        }
        let rook_col: usize = match side {
            CastlingType::KingSide => 7,
            CastlingType::QueenSide => 0,
        };
        let rook_there = match self.board.get_figure(Position::new_unchecked(rook_col, row)) {
            Some(f) => f.fig_type == FigureType::Rook && f.color == color,
            None => false,
        };
        if !rook_there {
            return false;
        }
        match side {
            CastlingType::KingSide => self.board.is_empty(Position::new_unchecked(5, row))
                && self.board.is_empty(Position::new_unchecked(6, row)),
            CastlingType::QueenSide => self.board.is_empty(Position::new_unchecked(3, row))
                && self.board.is_empty(Position::new_unchecked(2, row)) && self.board.is_empty(
                Position::new_unchecked(1, row),
            ),
        }
    }

    /// Whether the piece on `from` can be moved to `to`.
    pub fn is_playable(&self, from: Position, to: Position) -> (b: bool)
        ensures
            b == is_playable(self@, from@, to@),
    {
        if !self.has_mover_on(from) {
            return false;
        }
        let own_on_target = match self.board.get_figure(to) {
            Some(g) => g.color == self.turn_by,
            None => false,
        };
        if own_on_target {
            return false;
        }
        match self.castling_side(from, to) {
            Some(side) => self.castling_allowed(self.turn_by, side),
            None => {
                let origins = get_positions_to_reach_target_from(
                    to,
                    self.turn_by,
                    &self.board,
                    self.en_passant_intercept_pos,
                );
                holds_square(&origins, from)
            },
        }
    }

    /// What kind of move `mv` is in this position.
    pub fn classify(&self, mv: &Move) -> (m: MoveData)
        ensures
            m == classify(self@, *mv),
    {
        let from = mv.from_to.from;
        let to = mv.from_to.to;
        let f = match self.board.get_figure(from) {
            Some(f) => f,
            None => {
                return MoveData::new(mv.from_to, None);
            },
        };
        if let Some(side) = self.castling_side(from, to) {
            let row = from.row();
            let (rook_from, rook_to) = match side {
                CastlingType::KingSide => (
                    Position::new_unchecked(7, row),
                    Position::new_unchecked(5, row),
                ),
                CastlingType::QueenSide => (
                    Position::new_unchecked(0, row),
                    Position::new_unchecked(3, row),
                ),
            };
            proof {
                Position::lemma_view_at(rook_from);
                Position::lemma_view_at(rook_to);
            }
            return MoveData {
                main_move: mv.from_to,
                figure_captured: None,
                is_pawn_move: false,
                move_type: MoveType::Castling(side, FromTo::new(rook_from, rook_to)),
            };
        }
        let target = self.board.get_figure(to);
        let figure_captured = match target {
            Some(g) => if g.color != f.color {
                Some(g.fig_type)
            } else {
                None
            },
            None => None,
        };
        if f.fig_type == FigureType::Pawn {
            let at_intercept = match self.en_passant_intercept_pos {
                Some(p) => p.index() == to.index(),
                None => false,
            };
            let last: usize = match f.color {
                Color::White => 7,
                Color::Black => 0,
            };
            if let Some(p) = mv.promotion_type {
                if to.row() == last {
                    return MoveData {
                        main_move: mv.from_to,
                        figure_captured,
                        is_pawn_move: true,
                        move_type: MoveType::PawnPromotion(p),
                    };
                }
            }
            if to.column() != from.column() && target.is_none() && at_intercept {
                return MoveData::new_en_passant(mv.from_to);
            }
            MoveData {
                main_move: mv.from_to,
                figure_captured,
                is_pawn_move: true,
                move_type: MoveType::Normal,
            }
        } else {
            MoveData::new(mv.from_to, figure_captured)
        }
    }

    /// The move that playing `mv` here makes, or why it cannot be played.
    pub fn check_move(&self, mv: &Move) -> (r: Result<MoveData, ChessError>)
        ensures
            r == check_move(self@, *mv),
    {
        let from = mv.from_to.from;
        let to = mv.from_to.to;
        if !self.has_mover_on(from) {
            return Err(ChessError::NoPieceToMove(from.index()));
        }
        let promotes = self.is_promotion_step(from, to);
        match mv.promotion_type {
            None => {
                if promotes {
                    return Err(ChessError::MissingPromotion);
                }
            },
            Some(p) => {
                if !promotes {
                    return Err(ChessError::UnexpectedPromotion(p.get_char()));
                }
            },
        }
        if !self.is_playable(from, to) {
            return Err(ChessError::Unreachable(from.index(), to.index()));
        }
        Ok(self.classify(mv))
    }

    /// Plays `mv`: the move as it was made and the position after it, or
    /// why it cannot be played.
    pub fn play(&self, mv: &Move) -> (r: Result<(MoveData, GameState), ChessError>)
        ensures
            match r {
                Ok((made, next)) => check_move(self@, *mv) == Ok::<MoveData, ChessError>(made)
                    && next@ == apply_move(self@, made),
                Err(e) => check_move(self@, *mv) == Err::<MoveData, ChessError>(e),
            },
    {
        match self.check_move(mv) {
            Ok(made) => {
                let next = self.apply(&made);
                Ok((made, next))
            },
            Err(e) => Err(e),
        }
    }
}

} // verus!
