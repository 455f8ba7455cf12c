//! The 64 squares and what stands on them.
//!
//! In contracts a board is a sequence of 64 optional pieces, indexed by
//! square.

use vstd::prelude::*;
use crate::base::Color;
use crate::figure::{Figure, FigureType};
use crate::position::{col_of, is_square, row_of, Position};

verus! {

/// The kind of piece that starts in file `col` of a side's home rank.
pub open spec fn home_rank_kind(col: int) -> FigureType {
    if col == 0 || col == 7 {
        FigureType::Rook
    } else if col == 1 || col == 6 {
        FigureType::Knight
    } else if col == 2 || col == 5 {
        FigureType::Bishop
    } else if col == 3 {
        FigureType::Queen
    } else {
        FigureType::King
    }
}

/// What stands on square `sq` when a game begins.
pub open spec fn classic_figure(sq: int) -> Option<Figure> {
    let row = row_of(sq);
    if row == 0 {
        Some(Figure { fig_type: home_rank_kind(col_of(sq)), color: Color::White })
    } else if row == 1 {
        Some(Figure { fig_type: FigureType::Pawn, color: Color::White })
    } else if row == 6 {
        Some(Figure { fig_type: FigureType::Pawn, color: Color::Black })
    } else if row == 7 {
        Some(Figure { fig_type: home_rank_kind(col_of(sq)), color: Color::Black })
    } else {
        None
    }
}

/// The board at the start of a game.
pub open spec fn classic_squares() -> Seq<Option<Figure>> {
    Seq::new(64, |sq: int| classic_figure(sq))
}

/// A board: for each square, the piece on it or nothing.
#[derive(Debug, Copy, Clone, PartialEq, Eq)]
pub struct Board {
    squares: [Option<Figure>; 64],
}

impl View for Board {
    type V = Seq<Option<Figure>>;

    closed spec fn view(&self) -> Seq<Option<Figure>> {
        self.squares@
    }
}

impl Board {
    /// A board always has 64 squares.
    pub broadcast proof fn lemma_len(self)
        ensures
            #[trigger] self@.len() == 64,
    {
    }

    /// A board without pieces.
    pub fn empty() -> (b: Board)
        ensures
            b@ == Seq::new(64, |sq: int| None::<Figure>),
    {
        let b = Board { squares: [None; 64] };
        proof {
            assert(b@ =~= Seq::new(64, |sq: int| None::<Figure>));
        }
        b
    }

    /// The board at the start of a game.
    pub fn classic() -> (b: Board)
        ensures
            b@ == classic_squares(),
    {
        let mut b = Board::empty();
        let mut col: usize = 0;
        while col < 8
            invariant
                col <= 8,
                b@.len() == 64,
                forall|sq: int|
                    0 <= sq < 64 ==> #[trigger] b@[sq] == if col_of(sq) < col {
                        classic_figure(sq)
                    } else {
                        None
                    },
            decreases 8 - col,
        {
            let kind = if col == 0 || col == 7 {
                FigureType::Rook
            } else if col == 1 || col == 6 {
                FigureType::Knight
            } else if col == 2 || col == 5 {
                FigureType::Bishop
            } else if col == 3 {
                FigureType::Queen
            } else {
                FigureType::King
            };
            b.squares[col] = Some(Figure { fig_type: kind, color: Color::White });
            b.squares[8 + col] = Some(Figure { fig_type: FigureType::Pawn, color: Color::White });
            b.squares[48 + col] = Some(Figure { fig_type: FigureType::Pawn, color: Color::Black });
            b.squares[56 + col] = Some(Figure { fig_type: kind, color: Color::Black });
            col = col + 1;
        }
        proof {
            assert(b@ =~= classic_squares());
        }
        b
    }

    /// What stands on `pos`.
    pub fn get_figure(&self, pos: Position) -> (f: Option<Figure>)
        ensures
            f == self@[pos@],
            is_square(pos@),
    {
        self.squares[pos.index()]
    }

    /// Whether nothing stands on `pos`.
    pub fn is_empty(&self, pos: Position) -> (b: bool)
        ensures
            b == (self@[pos@] is None),
            is_square(pos@),
    {
        self.squares[pos.index()].is_none()
    }

    /// Puts `figure` on `pos`, or clears the square if it is `None`.
    pub fn set_figure(&mut self, pos: Position, figure: Option<Figure>)
        ensures
            final(self)@ == old(self)@.update(pos@, figure),
            is_square(pos@),
    {
        let i = pos.index();
        self.squares[i] = figure;
    }
}

} // verus!
