//! Pieces.

use vstd::prelude::*;
use crate::base::Color;

verus! {

/// The six kinds of chess piece.
#[derive(Debug, Copy, Clone, PartialEq, Eq, Structural)]
pub enum FigureType {
    Pawn,
    Rook,
    Knight,
    Bishop,
    Queen,
    King,
}

impl FigureType {
    /// The upper-case letter that stands for this kind in move notation and,
    /// for White, in FEN records: `N` is the knight, `K` the king.
    pub open spec fn letter(self) -> char {
        match self {
            FigureType::Pawn => 'P',
            FigureType::Rook => 'R',
            FigureType::Knight => 'N',
            FigureType::Bishop => 'B',
            FigureType::Queen => 'Q',
            FigureType::King => 'K',
        }
    }

    /// The lower-case form of `letter`.
    pub open spec fn small_letter(self) -> char {
        match self {
            FigureType::Pawn => 'p',
            FigureType::Rook => 'r',
            FigureType::Knight => 'n',
            FigureType::Bishop => 'b',
            FigureType::Queen => 'q',
            FigureType::King => 'k',
        }
    }

    /// Returns the upper-case letter of this kind.
    pub fn get_char(&self) -> (c: char)
        ensures
            c == self.letter(),
    {
        match self {
            FigureType::Pawn => 'P',
            FigureType::Rook => 'R',
            FigureType::Knight => 'N',
            FigureType::Bishop => 'B',
            FigureType::Queen => 'Q',
            FigureType::King => 'K',
        }
    }
}

/// A piece: its kind and the side it belongs to.
#[derive(Debug, Copy, Clone, PartialEq, Eq, Structural)]
pub struct Figure {
    pub fig_type: FigureType,
    pub color: Color,
}

impl Figure {
    /// The character of this piece in a FEN record: the kind's letter, in
    /// upper case for White and in lower case for Black.
    pub open spec fn fen_letter(self) -> char {
        match self.color {
            Color::White => self.fig_type.letter(),
            Color::Black => self.fig_type.small_letter(),
        }
    }

    /// Returns the character of this piece in a FEN record.
    pub fn get_fen_char(&self) -> (c: char)
        ensures
            c == self.fen_letter(),
    {
        match self.color {
            Color::White => self.fig_type.get_char(),
            Color::Black => match self.fig_type {
                FigureType::Pawn => 'p',
                FigureType::Rook => 'r',
                FigureType::Knight => 'n',
                FigureType::Bishop => 'b',
                FigureType::Queen => 'q',
                FigureType::King => 'k',
            },
        }
    }
}

} // verus!
