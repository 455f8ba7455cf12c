//! Errors reported when text or symbols cannot be turned into moves.

use vstd::prelude::*;
use vstd::string::StringExecFns;
use crate::text::{decimal, push_decimal};

verus! {

/// The two broad classes of failure.
#[derive(Debug, Copy, Clone, PartialEq, Eq, Structural)]
pub enum ErrorKind {
    /// The input is not shaped like what was asked for.
    IllegalFormat,
    /// The input is well shaped but names a move that cannot be played.
    IllegalMove,
}

/// Why an input was refused. A failure is a small value that names the
/// character, the squares or the count at fault; `get_message` makes the
/// message from it and from the text that was refused.
#[derive(Debug, Copy, Clone, PartialEq, Eq, Structural)]
pub enum ChessError {
    /// A square or a pair of squares written with the wrong number of
    /// characters; carries the number found.
    WrongLength(usize),
    /// A written move of neither four nor five characters; carries the
    /// number found.
    MoveFormat(usize),
    /// A promotion written with more or less than one character; carries
    /// the number found.
    PromotionFormat(usize),
    /// A move type written with more or less than one character; carries
    /// the number found.
    MoveTypeFormat(usize),
    /// A character that is no file letter `a`..`h`.
    BadColumn(char),
    /// A character that is no rank digit `1`..`8`.
    BadRow(char),
    /// A character that is none of the promotion letters `Q`, `R`, `K`, `B`.
    BadPromotion(char),
    /// A character that is neither `-` nor a promotion letter.
    BadMoveType(char),
    /// A character outside the 64 symbol alphabet; carries the character.
    BadSymbol(char),
    /// A symbol that names an origin square with no destination symbol behind it.
    DanglingSymbol(char),
    /// A pawn reaches the last rank and nothing says what it becomes.
    MissingPromotion,
    /// A promotion, given by its letter, on a move that is none.
    UnexpectedPromotion(char),
    /// The origin square, given by its index, holds no piece of the side to move.
    NoPieceToMove(usize),
    /// The piece on the first square cannot go to the second.
    Unreachable(usize, usize),
    /// Positions and moves of a game record do not number one apart.
    CountMismatch(usize, usize),
}

impl ChessError {
    /// The class a failure belongs to.
    pub open spec fn kind_of(self) -> ErrorKind {
        match self {
            ChessError::NoPieceToMove(_) => ErrorKind::IllegalMove,
            ChessError::UnexpectedPromotion(_) => ErrorKind::IllegalMove,
            ChessError::Unreachable(_, _) => ErrorKind::IllegalMove,
            ChessError::CountMismatch(_, _) => ErrorKind::IllegalMove,
            _ => ErrorKind::IllegalFormat,
        }
    }

    /// What is said of this failure when `text` is the text that was
    /// refused. Where the text has the wrong shape the message holds the
    /// whole text; elsewhere it names the character or the squares at fault
    /// and `text` is of no account.
    pub open spec fn message(self, text: Seq<char>) -> Seq<char> {
        match self {
            ChessError::WrongLength(_) => "wrong number of characters: "@ + text,
            ChessError::MoveFormat(_) => "illegal move format: "@ + text,
            ChessError::PromotionFormat(_) => "unknown pawn promotion type: "@ + text
                + ". Only 'QRKB' are allowed."@,
            ChessError::MoveTypeFormat(_) => "unknown move type: "@ + text
                + ". Only '-QRKB' are allowed."@,
            ChessError::BadColumn(c) => "unknown file: "@.push(c),
            ChessError::BadRow(c) => "unknown rank: "@.push(c),
            ChessError::BadPromotion(c) => "unknown pawn promotion type: "@.push(c)
                + ". Only 'QRKB' are allowed."@,
            ChessError::BadMoveType(c) => "unknown move type: "@.push(c)
                + ". Only '-QRKB' are allowed."@,
            ChessError::BadSymbol(c) => "illegal symbol: "@.push(c),
            ChessError::DanglingSymbol(c) => "origin without destination: "@.push(c),
            ChessError::MissingPromotion => "missing pawn promotion type"@,
            ChessError::UnexpectedPromotion(c) => "unexpected pawn promotion type: "@.push(c),
            ChessError::NoPieceToMove(from) => "no piece to move on square "@ + decimal(
                from as int,
            ),
            ChessError::Unreachable(from, to) => "illegal move from square "@ + decimal(
                from as int,
            ) + " to square "@ + decimal(to as int),
            ChessError::CountMismatch(positions, moves) => "The number of moves ("@ + decimal(
                moves as int,
            ) + ") + 1 does not match the number of positions ("@ + decimal(positions as int)
                + ")"@,
        }
    }

    /// Says what is wrong with `text`, the text that was refused with this
    /// failure.
    pub fn get_message(&self, text: &str) -> (s: String)
        ensures
            s@ == self.message(text@),
    {
        match self {
            ChessError::WrongLength(_) => {
                let mut s = "wrong number of characters: ".to_owned();
                s.append(text);
                s
            },
            ChessError::MoveFormat(_) => {
                let mut s = "illegal move format: ".to_owned();
                s.append(text);
                s
            },
            ChessError::PromotionFormat(_) => {
                let mut s = "unknown pawn promotion type: ".to_owned();
                s.append(text);
                s.append(". Only 'QRKB' are allowed.");
                s
            },
            ChessError::MoveTypeFormat(_) => {
                let mut s = "unknown move type: ".to_owned();
                s.append(text);
                s.append(". Only '-QRKB' are allowed.");
                s
            },
            ChessError::BadColumn(c) => {
                let mut s = "unknown file: ".to_owned();
                s.push(*c);
                s
            },
            ChessError::BadRow(c) => {
                let mut s = "unknown rank: ".to_owned();
                s.push(*c);
                s
            },
            ChessError::BadPromotion(c) => {
                let mut s = "unknown pawn promotion type: ".to_owned();
                s.push(*c);
                s.append(". Only 'QRKB' are allowed.");
                s
            },
            ChessError::BadMoveType(c) => {
                let mut s = "unknown move type: ".to_owned();
                s.push(*c);
                s.append(". Only '-QRKB' are allowed.");
                s
            },
            ChessError::BadSymbol(c) => {
                let mut s = "illegal symbol: ".to_owned();
                s.push(*c);
                s
            },
            ChessError::DanglingSymbol(c) => {
                let mut s = "origin without destination: ".to_owned();
                s.push(*c);
                s
            },
            ChessError::MissingPromotion => "missing pawn promotion type".to_owned(),
            ChessError::UnexpectedPromotion(c) => {
                let mut s = "unexpected pawn promotion type: ".to_owned();
                s.push(*c);
                s
            },
            ChessError::NoPieceToMove(from) => {
                let mut s = "no piece to move on square ".to_owned();
                push_decimal(&mut s, *from);
                s
            },
            ChessError::Unreachable(from, to) => {
                let mut s = "illegal move from square ".to_owned();
                push_decimal(&mut s, *from);
                s.append(" to square ");
                push_decimal(&mut s, *to);
                s
            },
            ChessError::CountMismatch(positions, moves) => {
                let mut s = "The number of moves (".to_owned();
                push_decimal(&mut s, *moves);
                s.append(") + 1 does not match the number of positions (");
                push_decimal(&mut s, *positions);
                s.append(")");
                s
            },
        }
    }

    /// Returns the class this failure belongs to.
    pub fn kind(&self) -> (k: ErrorKind)
        ensures
            k == self.kind_of(),
    {
        match self {
            ChessError::NoPieceToMove(_) => ErrorKind::IllegalMove,
            ChessError::UnexpectedPromotion(_) => ErrorKind::IllegalMove,
            ChessError::Unreachable(_, _) => ErrorKind::IllegalMove,
            ChessError::CountMismatch(_, _) => ErrorKind::IllegalMove,
            _ => ErrorKind::IllegalFormat,
        }
    }
}

} // verus!
