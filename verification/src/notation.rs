//! Moves in short algebraic notation.
//!
//! A move is written as the letter of the piece (none for a pawn), as much
//! of the origin square as is needed to tell the piece from others of its
//! kind that could go to the same square, an `x` if something is taken, the
//! destination square and, for a promotion, `=` and the letter of the new
//! piece. Pieces are `K`, `Q`, `R`, `B` and `N` for the knight. A pawn that
//! takes is always named by its file. Castling is written `O-O` on the
//! king's wing and `O-O-O` on the queen's.

use vstd::prelude::*;
use crate::a_move::{CastlingType, MoveData, MoveType, PromotionType};
use crate::figure::{Figure, FigureType};
use crate::game::{GameState, Snapshot};
use crate::position::{col_of, file_char, rank_char, row_of, square_text, Position};
use crate::reachable::{can_reach, get_positions_to_reach_target_from, indices};

verus! {

/// How much of the origin square a move has to show.
#[derive(Debug, Copy, Clone, PartialEq, Eq, Structural)]
pub enum OriginStatus {
    /// Nothing: no other piece of the kind can go to the destination.
    Unambiguous,
    /// The file: no other such piece stands in the same file.
    ColumnIsAmbiguous,
    /// The rank: one stands in the same file, none in the same rank.
    RowIsAmbiguous,
    /// File and rank: one stands in the same file and one in the same rank.
    ColumnAndRowAreAmbiguous,
}

/// Whether `s` holds another piece of the kind and color of the piece on
/// `from` that can also move to `to`.
pub open spec fn is_rival(
    squares: Seq<Option<Figure>>,
    ep: Option<int>,
    from: int,
    to: int,
    s: int,
) -> bool {
    &&& squares[from] is Some
    &&& s != from
    &&& can_reach(squares, ep, squares[from]->0.color, s, to)
    &&& squares[s]->0.fig_type == squares[from]->0.fig_type
}

/// Whether the piece on `from` has a rival for the move to `to`.
pub open spec fn has_rival(squares: Seq<Option<Figure>>, ep: Option<int>, from: int, to: int) -> bool {
    exists|s: int| is_rival(squares, ep, from, to, s)
}

/// Whether a rival stands in the file of `from`.
pub open spec fn has_rival_in_file(
    squares: Seq<Option<Figure>>,
    ep: Option<int>,
    from: int,
    to: int,
) -> bool {
    exists|s: int| is_rival(squares, ep, from, to, s) && col_of(s) == col_of(from)
}

/// Whether a rival stands in the rank of `from`.
pub open spec fn has_rival_in_rank(
    squares: Seq<Option<Figure>>,
    ep: Option<int>,
    from: int,
    to: int,
) -> bool {
    exists|s: int| is_rival(squares, ep, from, to, s) && row_of(s) == row_of(from)
}

/// How much of the origin the move from `from` to `to` has to show to be
/// told from the moves of rivals.
pub open spec fn origin_status(
    squares: Seq<Option<Figure>>,
    ep: Option<int>,
    from: int,
    to: int,
) -> OriginStatus {
    if !has_rival(squares, ep, from, to) {
        OriginStatus::Unambiguous
    } else if !has_rival_in_file(squares, ep, from, to) {
        OriginStatus::ColumnIsAmbiguous
    } else if !has_rival_in_rank(squares, ep, from, to) {
        OriginStatus::RowIsAmbiguous
    } else {
        OriginStatus::ColumnAndRowAreAmbiguous
    }
}

/// Whether a pawn stands on the origin of `mv` and `mv` takes something.
pub open spec fn pawn_takes(squares: Seq<Option<Figure>>, mv: MoveData) -> bool {
    let from = mv.main_move.from@;
    squares[from] is Some && squares[from]->0.fig_type == FigureType::Pawn && mv.figure_captured
        is Some
}

/// How much of the origin the notation of `mv` shows: what is needed to
/// tell it from rivals, and at least the file for a pawn that takes.
pub open spec fn shown_status(s: Snapshot, mv: MoveData) -> OriginStatus {
    let status = origin_status(s.squares, s.ep, mv.main_move.from@, mv.main_move.to@);
    if status == OriginStatus::Unambiguous && pawn_takes(s.squares, mv) {
        OriginStatus::ColumnIsAmbiguous
    } else {
        status
    }
}

/// The characters that show the origin `from` to the extent `status` asks.
pub open spec fn origin_text(status: OriginStatus, from: int) -> Seq<char> {
    match status {
        OriginStatus::Unambiguous => Seq::<char>::empty(),
        OriginStatus::ColumnIsAmbiguous => seq![file_char(col_of(from))],
        OriginStatus::RowIsAmbiguous => seq![rank_char(row_of(from))],
        OriginStatus::ColumnAndRowAreAmbiguous => square_text(from),
    }
}

/// Whether what is shown of the origin `from` would fit the square `s` too.
pub open spec fn fits(status: OriginStatus, from: int, s: int) -> bool {
    match status {
        OriginStatus::Unambiguous => true,
        OriginStatus::ColumnIsAmbiguous => col_of(s) == col_of(from),
        OriginStatus::RowIsAmbiguous => row_of(s) == row_of(from),
        OriginStatus::ColumnAndRowAreAmbiguous => col_of(s) == col_of(from) && row_of(s)
            == row_of(from),
    }
}

/// The letter of a kind of piece as a move shows it: none for a pawn.
pub open spec fn kind_text(kind: FigureType) -> Seq<char> {
    if kind == FigureType::Pawn {
        Seq::<char>::empty()
    } else {
        seq![kind.letter()]
    }
}

/// The letter of the piece that moves: none for a pawn or an empty square.
pub open spec fn piece_text(mover: Option<Figure>) -> Seq<char> {
    match mover {
        Some(f) => kind_text(f.fig_type),
        None => Seq::<char>::empty(),
    }
}

/// `=` and the letter of the new piece, as notation writes pieces: `Q`,
/// `R`, `B`, and `N` for the knight.
pub open spec fn promotion_text(p: PromotionType) -> Seq<char> {
    seq!['=', p.figure_type().letter()]
}

/// The notation of `mv`, played in position `s`.
pub open spec fn notation(s: Snapshot, mv: MoveData) -> Seq<char> {
    let from = mv.main_move.from@;
    let to = mv.main_move.to@;
    match mv.move_type {
        MoveType::Castling(CastlingType::KingSide, _) => seq!['O', '-', 'O'],
        MoveType::Castling(CastlingType::QueenSide, _) => seq!['O', '-', 'O', '-', 'O'],
        _ => piece_text(s.squares[from]) + origin_text(shown_status(s, mv), from) + (
        if mv.figure_captured is Some {
            seq!['x']
        } else {
            Seq::<char>::empty()
        }) + square_text(to) + match mv.move_type {
            MoveType::PawnPromotion(p) => promotion_text(p),
            _ => Seq::<char>::empty(),
        },
    }
}

/// Appends the letter of the piece; a pawn has none.
pub fn append_figure_icon_to(move_notation: &mut String, figure_type: &FigureType)
    ensures
        final(move_notation)@ == old(move_notation)@ + kind_text(*figure_type),
{
    match figure_type {
        FigureType::Pawn => {},
        FigureType::Rook => move_notation.push('R'),
        FigureType::Knight => move_notation.push('N'),
        FigureType::Bishop => move_notation.push('B'),
        FigureType::Queen => move_notation.push('Q'),
        FigureType::King => move_notation.push('K'),
    }
    proof {
        assert(move_notation@ =~= old(move_notation)@ + kind_text(*figure_type));
    }
}

/// Appends `=` and the letter of the piece that a pawn becomes.
pub fn append_promotion_icon_to(move_notation: &mut String, figure_type: &PromotionType)
    ensures
        final(move_notation)@ == old(move_notation)@ + promotion_text(*figure_type),
{
    move_notation.push('=');
    match figure_type {
        PromotionType::Queen => move_notation.push('Q'),
        PromotionType::Rook => move_notation.push('R'),
        PromotionType::Bishop => move_notation.push('B'),
        PromotionType::Knight => move_notation.push('N'),
    }
    proof {
        assert(move_notation@ =~= old(move_notation)@ + promotion_text(*figure_type));
    }
}

impl GameState {
    /// How much of its origin the move from `from` to `to` has to show in
    /// this position to be told from the moves of rivals.
    pub fn origin_status(&self, from: Position, to: Position) -> (status: OriginStatus)
        ensures
            status == origin_status(self@.squares, self@.ep, from@, to@),
    {
        let ghost squares = self@.squares;
        let ghost ep = self@.ep;
        let mover = match self.board.get_figure(from) {
            Some(f) => f,
            None => {
                return OriginStatus::Unambiguous;
            },
        };
        let origins = get_positions_to_reach_target_from(
            to,
            mover.color,
            &self.board,
            self.en_passant_intercept_pos,
        );
        let ghost found = indices(origins@);
        let from_index = from.index();
        let from_col = from.column();
        let from_row = from.row();
        let mut any = false;
        let mut in_file = false;
        let mut in_rank = false;
        let mut i: usize = 0;
        while i < origins.len()
            invariant
                0 <= i <= origins.len(),
                found == indices(origins@),
                squares == self@.squares,
                ep == self@.ep,
                squares[from@] == Some(mover),
                from_index == from@,
                from_col == col_of(from@),
                from_row == row_of(from@),
                forall|s: int|
                    found.contains(s) <==> can_reach(squares, ep, mover.color, s, to@),
                any <==> exists|k: int| 0 <= k < i && is_rival(squares, ep, from@, to@, found[k]),
                in_file <==> exists|k: int|
                    0 <= k < i && is_rival(squares, ep, from@, to@, found[k]) && col_of(found[k])
                        == col_of(from@),
                in_rank <==> exists|k: int|
                    0 <= k < i && is_rival(squares, ep, from@, to@, found[k]) && row_of(found[k])
                        == row_of(from@),
            decreases origins.len() - i,
        {
            let other = origins[i];
            let ghost o = found[i as int];
            proof {
                assert(found.contains(o));
            }
            let same_kind = match self.board.get_figure(other) {
                Some(f) => f.fig_type == mover.fig_type,
                None => false,
            };
            let rival = same_kind && other.index() != from_index;
            assert(rival == is_rival(squares, ep, from@, to@, o));
            let ghost (any0, file0, rank0) = (any, in_file, in_rank);
            if rival {
                any = true;
                if other.column() == from_col {
                    in_file = true;
                }
                if other.row() == from_row {
                    in_rank = true;
                }
            }
            proof {
                if any {
                    if any0 {
                        let k = choose|k: int| 0 <= k < i && is_rival(squares, ep, from@, to@, found[k]);
                        assert(0 <= k < i + 1 && is_rival(squares, ep, from@, to@, found[k]));
                    } else {
                        assert(0 <= i < i + 1 && is_rival(squares, ep, from@, to@, found[i as int]));
                    }
                }
                if in_file {
                    if file0 {
                        let k = choose|k: int|
                            0 <= k < i && is_rival(squares, ep, from@, to@, found[k]) && col_of(
                                found[k],
                            ) == col_of(from@);
                        assert(0 <= k < i + 1 && is_rival(squares, ep, from@, to@, found[k])
                            && col_of(found[k]) == col_of(from@));
                    } else {
                        assert(0 <= i < i + 1 && is_rival(squares, ep, from@, to@, found[i as int])
                            && col_of(found[i as int]) == col_of(from@));
                    }
                }
                if in_rank {
                    if rank0 {
                        let k = choose|k: int|
                            0 <= k < i && is_rival(squares, ep, from@, to@, found[k]) && row_of(
                                found[k],
                            ) == row_of(from@);
                        assert(0 <= k < i + 1 && is_rival(squares, ep, from@, to@, found[k])
                            && row_of(found[k]) == row_of(from@));
                    } else {
                        assert(0 <= i < i + 1 && is_rival(squares, ep, from@, to@, found[i as int])
                            && row_of(found[i as int]) == row_of(from@));
                    }
                }
            }
            i = i + 1;
        }
        proof {
            assert(any <==> has_rival(squares, ep, from@, to@)) by {
                if has_rival(squares, ep, from@, to@) {
                    let s = choose|s: int| is_rival(squares, ep, from@, to@, s);
                    assert(found.contains(s));
                    let k = choose|k: int| 0 <= k < found.len() && found[k] == s;
                    assert(0 <= k < i && is_rival(squares, ep, from@, to@, found[k]));
                }
            }
            assert(in_file <==> has_rival_in_file(squares, ep, from@, to@)) by {
                if has_rival_in_file(squares, ep, from@, to@) {
                    let s = choose|s: int|
                        is_rival(squares, ep, from@, to@, s) && col_of(s) == col_of(from@);
                    assert(found.contains(s));
                    let k = choose|k: int| 0 <= k < found.len() && found[k] == s;
                    assert(0 <= k < i && is_rival(squares, ep, from@, to@, found[k]) && col_of(
                        found[k],
                    ) == col_of(from@));
                }
            }
            assert(in_rank <==> has_rival_in_rank(squares, ep, from@, to@)) by {
                if has_rival_in_rank(squares, ep, from@, to@) {
                    let s = choose|s: int|
                        is_rival(squares, ep, from@, to@, s) && row_of(s) == row_of(from@);
                    assert(found.contains(s));
                    let k = choose|k: int| 0 <= k < found.len() && found[k] == s;
                    assert(0 <= k < i && is_rival(squares, ep, from@, to@, found[k]) && row_of(
                        found[k],
                    ) == row_of(from@));
                }
            }
        }
        if !any {
            OriginStatus::Unambiguous
        } else if !in_file {
            OriginStatus::ColumnIsAmbiguous
        } else if !in_rank {
            OriginStatus::RowIsAmbiguous
        } else {
            OriginStatus::ColumnAndRowAreAmbiguous
        }
    }
}

/// The notation of `move_data`, played in the position `before`.
pub fn to_move_notation(move_data: &MoveData, before: &GameState) -> (text: String)
    ensures
        text@ == notation(before@, *move_data),
{
    let mut move_notation = String::new();
    if let MoveType::Castling(castling_type, _) = move_data.move_type {
        move_notation.push('O');
        move_notation.push('-');
        move_notation.push('O');
        match castling_type {
            CastlingType::KingSide => {},
            CastlingType::QueenSide => {
                move_notation.push('-');
                move_notation.push('O');
            },
        }
        proof {
            assert(move_notation@ =~= notation(before@, *move_data));
        }
        return move_notation;
    }
    let from_to = move_data.main_move;
    let mover = before.board.get_figure(from_to.from);
    let mut pawn = false;
    if let Some(figure) = mover {
        append_figure_icon_to(&mut move_notation, &figure.fig_type);
        pawn = figure.fig_type == FigureType::Pawn;
    }
    let ghost s1 = move_notation@;
    assert(s1 =~= piece_text(mover));
    let mut status = before.origin_status(from_to.from, from_to.to);
    if pawn && move_data.did_catch_figure() {
        if let OriginStatus::Unambiguous = status {
            status = OriginStatus::ColumnIsAmbiguous;
        }
    }
    assert(status == shown_status(before@, *move_data));
    match status {
        OriginStatus::Unambiguous => {},
        OriginStatus::ColumnIsAmbiguous => {
            move_notation.push(from_to.from.column_char());
        },
        OriginStatus::RowIsAmbiguous => {
            move_notation.push(from_to.from.row_char());
        },
        OriginStatus::ColumnAndRowAreAmbiguous => {
            move_notation.push(from_to.from.column_char());
            move_notation.push(from_to.from.row_char());
        },
    }
    let ghost s2 = move_notation@;
    assert(s2 =~= s1 + origin_text(status, from_to.from@));
    if move_data.did_catch_figure() {
        move_notation.push('x');
    }
    move_notation.push(from_to.to.column_char());
    move_notation.push(from_to.to.row_char());
    let ghost s3 = move_notation@;
    assert(s3 =~= s2 + (if move_data.figure_captured is Some {
        seq!['x']
    } else {
        Seq::<char>::empty()
    }) + square_text(from_to.to@));
    if let MoveType::PawnPromotion(promoted_to) = move_data.move_type {
        append_promotion_icon_to(&mut move_notation, &promoted_to);
    }
    proof {
        assert(move_notation@ =~= notation(before@, *move_data));
    }
    move_notation
}

/// A piece that alone of its kind and color can go to a square is written
/// without any part of its origin, unless it is a pawn that takes.
pub proof fn lemma_lone_piece_shows_no_origin(s: Snapshot, mv: MoveData)
    requires
        !has_rival(s.squares, s.ep, mv.main_move.from@, mv.main_move.to@),
        !pawn_takes(s.squares, mv),
    ensures
        shown_status(s, mv) == OriginStatus::Unambiguous,
        origin_text(shown_status(s, mv), mv.main_move.from@) == Seq::<char>::empty(),
{
}

/// What the notation shows of the origin fits the origin and fits no
/// rival: it tells the piece that moves from every other piece of its kind
/// and color that could go to the same square.
pub proof fn lemma_origin_text_singles_out(s: Snapshot, mv: MoveData, rival: int)
    requires
        is_rival(s.squares, s.ep, mv.main_move.from@, mv.main_move.to@, rival),
    ensures
        shown_status(s, mv) != OriginStatus::Unambiguous,
        fits(shown_status(s, mv), mv.main_move.from@, mv.main_move.from@),
        !fits(shown_status(s, mv), mv.main_move.from@, rival),
{
    let from = mv.main_move.from@;
    let to = mv.main_move.to@;
    assert(has_rival(s.squares, s.ep, from, to));
    let status = origin_status(s.squares, s.ep, from, to);
    assert(shown_status(s, mv) == status);
    if col_of(rival) == col_of(from) {
        assert(has_rival_in_file(s.squares, s.ep, from, to));
        assert(row_of(rival) != row_of(from));
    }
    if row_of(rival) == row_of(from) {
        assert(has_rival_in_rank(s.squares, s.ep, from, to));
    }
}

} // verus!
