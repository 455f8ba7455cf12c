//! Moves: the pair of squares a piece travels between, the move as it is
//! written down, and the move as it is classified against a position.

use vstd::prelude::*;
use crate::errors::{ChessError, ErrorKind};
use crate::figure::FigureType;
use crate::position::{
    col_of, is_square, lemma_square_text_round_trip, parse_square, row_of, square_at, square_text,
    Position,
};
use crate::text::chars_of;

verus! {

/// The piece a pawn turns into on the last rank.
#[derive(Debug, Copy, Clone, PartialEq, Eq, Structural)]
pub enum PromotionType {
    Rook,
    Knight,
    Bishop,
    Queen,
}

impl PromotionType {
    /// The kind of piece that the pawn becomes.
    pub open spec fn figure_type(self) -> FigureType {
        match self {
            PromotionType::Rook => FigureType::Rook,
            PromotionType::Knight => FigureType::Knight,
            PromotionType::Bishop => FigureType::Bishop,
            PromotionType::Queen => FigureType::Queen,
        }
    }

    /// The letter that stands for the promotion: `Q` for the queen, `R` for
    /// the rook, `K` for the knight and `B` for the bishop. It is the code
    /// of the promotion in written moves and move types, and the third
    /// symbol that the compact code appends to a promotion. Move notation
    /// does not use it: behind `=` stands the letter of the new piece as
    /// notation writes pieces, which for the knight is `N`.
    pub open spec fn letter(self) -> char {
        match self {
            PromotionType::Queen => 'Q',
            PromotionType::Rook => 'R',
            PromotionType::Knight => 'K',
            PromotionType::Bishop => 'B',
        }
    }

    /// The promotion that `c` stands for, if it stands for one.
    pub open spec fn of_letter(c: char) -> Option<PromotionType> {
        if c == 'Q' {
            Some(PromotionType::Queen)
        } else if c == 'R' {
            Some(PromotionType::Rook)
        } else if c == 'K' {
            Some(PromotionType::Knight)
        } else if c == 'B' {
            Some(PromotionType::Bishop)
        } else {
            None
        }
    }

    /// What reading `text` as a promotion gives: one of the four letters is
    /// the promotion, every other text is refused.
    pub open spec fn parse(text: Seq<char>) -> Result<PromotionType, ChessError> {
        if text.len() != 1 {
            Err(ChessError::PromotionFormat(text.len() as usize))
        } else {
            match PromotionType::of_letter(text[0]) {
                Some(p) => Ok(p),
                None => Err(ChessError::BadPromotion(text[0])),
            }
        }
    }

    /// Returns the kind of piece that the pawn becomes.
    pub fn get_figure_type(&self) -> (f: FigureType)
        ensures
            f == self.figure_type(),
    {
        match self {
            PromotionType::Rook => FigureType::Rook,
            PromotionType::Knight => FigureType::Knight,
            PromotionType::Bishop => FigureType::Bishop,
            PromotionType::Queen => FigureType::Queen,
        }
    }

    /// Returns the letter that stands for the promotion.
    pub fn get_char(&self) -> (c: char)
        ensures
            c == self.letter(),
    {
        match self {
            PromotionType::Queen => 'Q',
            PromotionType::Rook => 'R',
            PromotionType::Knight => 'K',
            PromotionType::Bishop => 'B',
        }
    }

    /// Returns the promotion that `c` stands for, if it stands for one.
    pub fn from_char(c: char) -> (r: Option<PromotionType>)
        ensures
            r == PromotionType::of_letter(c),
    {
        if c == 'Q' {
            Some(PromotionType::Queen)
        } else if c == 'R' {
            Some(PromotionType::Rook)
        } else if c == 'K' {
            Some(PromotionType::Knight)
        } else if c == 'B' {
            Some(PromotionType::Bishop)
        } else {
            None
        }
    }

    /// Reads a promotion from its one-letter name.
    pub fn from_str(s: &str) -> (r: Result<PromotionType, ChessError>)
        ensures
            r == PromotionType::parse(s@),
    {
        let n = s.unicode_len();
        if n != 1 {
            return Err(ChessError::PromotionFormat(n));
        }
        let c = s.get_char(0);
        match PromotionType::from_char(c) {
            Some(p) => Ok(p),
            None => Err(ChessError::BadPromotion(c)),
        }
    }

    /// The one-letter name of this promotion.
    pub fn to_string(&self) -> (s: String)
        ensures
            s@ == seq![self.letter()],
    {
        let mut s = String::new();
        s.push(self.get_char());
        proof {
            assert(s@ =~= seq![self.letter()]);
        }
        s
    }

    /// A promotion is found again from its letter.
    pub proof fn lemma_letter_round_trip(p: PromotionType)
        ensures
            PromotionType::of_letter(p.letter()) == Some(p),
    {
    }
}

/// A text that is no promotion is refused as ill-formed, and the message
/// holds the text.
pub proof fn lemma_refused_promotion_is_named(text: Seq<char>)
    requires
        PromotionType::parse(text) is Err,
    ensures
        PromotionType::parse(text)->Err_0.kind_of() == ErrorKind::IllegalFormat,
        PromotionType::parse(text)->Err_0.message(text) == "unknown pawn promotion type: "@ + text
            + ". Only 'QRKB' are allowed."@,
{
    if text.len() == 1 {
        assert("unknown pawn promotion type: "@.push(text[0]) =~= "unknown pawn promotion type: "@
            + text);
    }
}

/// The wing on which a king castles.
#[derive(Debug, Copy, Clone, PartialEq, Eq, Structural)]
pub enum CastlingType {
    KingSide,
    QueenSide,
}

/// The square a move starts from and the square it ends on.
#[derive(Debug, Copy, Clone, PartialEq, Eq, Hash, Structural)]
pub struct FromTo {
    pub from: Position,
    pub to: Position,
}

/// The four characters that name the squares `from` and `to`, one after the
/// other.
pub open spec fn from_to_text(from: int, to: int) -> Seq<char> {
    square_text(from) + square_text(to)
}

/// What reading `text` as a pair of squares gives: the two indices, or the
/// reason for the first thing that is wrong.
pub open spec fn parse_from_to(text: Seq<char>) -> Result<(int, int), ChessError> {
    if text.len() != 4 {
        Err(ChessError::WrongLength(text.len() as usize))
    } else {
        match parse_square(text.subrange(0, 2)) {
            Err(e) => Err(e),
            Ok(from) => match parse_square(text.subrange(2, 4)) {
                Err(e) => Err(e),
                Ok(to) => Ok((from, to)),
            },
        }
    }
}

impl FromTo {
    /// The pair seen as two square indices.
    pub open spec fn squares(self) -> (int, int) {
        (self.from@, self.to@)
    }

    /// The number that identifies the pair: the index of `from` in the upper
    /// six bits and the index of `to` in the lower six.
    pub open spec fn key_of(self) -> int {
        self.from@ * 64 + self.to@
    }

    pub fn new(from: Position, to: Position) -> (ft: FromTo)
        ensures
            ft.from == from,
            ft.to == to,
    {
        FromTo { from, to }
    }

    /// Returns the twelve-bit number that identifies the pair.
    pub fn key(&self) -> (k: usize)
        ensures
            k == self.key_of(),
            k < 4096,
    {
        self.from.index() * 64 + self.to.index()
    }

    /// Reads a pair of squares from four characters such as `e2e4`.
    pub fn from_str(code: &str) -> (r: Result<FromTo, ChessError>)
        ensures
            match r {
                Ok(ft) => parse_from_to(code@) == Ok::<(int, int), ChessError>(ft.squares()),
                Err(e) => parse_from_to(code@) == Err::<(int, int), ChessError>(e),
            },
    {
        let chars = chars_of(code);
        FromTo::from_chars(&chars)
    }

    /// Reads a pair of squares from four characters.
    pub fn from_chars(chars: &Vec<char>) -> (r: Result<FromTo, ChessError>)
        ensures
            match r {
                Ok(ft) => parse_from_to(chars@) == Ok::<(int, int), ChessError>(ft.squares()),
                Err(e) => parse_from_to(chars@) == Err::<(int, int), ChessError>(e),
            },
    {
        if chars.len() != 4 {
            return Err(ChessError::WrongLength(chars.len()));
        }
        let from = match Position::from_chars(chars, 0) {
            Ok(p) => p,
            Err(e) => {
                return Err(e);
            },
        };
        let to = match Position::from_chars(chars, 2) {
            Ok(p) => p,
            Err(e) => {
                return Err(e);
            },
        };
        Ok(FromTo { from, to })
    }

    /// Reads a pair of squares from a text that is known to name one.
    pub fn from_code(code: &str) -> (ft: FromTo)
        requires
            parse_from_to(code@) is Ok,
        ensures
            parse_from_to(code@) == Ok::<(int, int), ChessError>(ft.squares()),
    {
        match FromTo::from_str(code) {
            Ok(ft) => ft,
            Err(_) => {
                proof {
                    assert(false);
                }
                FromTo { from: Position::new_unchecked(0, 0), to: Position::new_unchecked(0, 0) }
            },
        }
    }

    /// The same move seen from the other side of the board: both squares keep
    /// their file and swap rank `r` for rank `7 - r`.
    pub fn toggle_rows(&self) -> (ft: FromTo)
        ensures
            ft.from@ == square_at(col_of(self.from@), 7 - row_of(self.from@)),
            ft.to@ == square_at(col_of(self.to@), 7 - row_of(self.to@)),
    {
        FromTo { from: self.from.toggle_row(), to: self.to.toggle_row() }
    }

    /// The four characters that name the pair, such as `e2e4`.
    pub fn to_string(&self) -> (s: String)
        ensures
            s@ == from_to_text(self.from@, self.to@),
    {
        let mut s = String::new();
        s.push(self.from.column_char());
        s.push(self.from.row_char());
        s.push(self.to.column_char());
        s.push(self.to.row_char());
        proof {
            assert(s@ =~= from_to_text(self.from@, self.to@));
        }
        s
    }
}

/// Reading the written form of a pair of squares gives the pair back.
pub proof fn lemma_from_to_text_round_trip(from: int, to: int)
    requires
        is_square(from),
        is_square(to),
    ensures
        parse_from_to(from_to_text(from, to)) == Ok::<(int, int), ChessError>((from, to)),
{
    let text = from_to_text(from, to);
    assert(text.subrange(0, 2) =~= square_text(from));
    assert(text.subrange(2, 4) =~= square_text(to));
    lemma_square_text_round_trip(from);
    lemma_square_text_round_trip(to);
}

/// Two pairs of squares with the same key are the same pair.
pub proof fn lemma_key_identifies(a: FromTo, b: FromTo)
    requires
        is_square(a.from@),
        is_square(a.to@),
        is_square(b.from@),
        is_square(b.to@),
        a.key_of() == b.key_of(),
    ensures
        a == b,
{
    Position::lemma_same_square(a.from, b.from);
    Position::lemma_same_square(a.to, b.to);
}

/// How a move is carried out on the board.
#[derive(Debug, Copy, Clone, PartialEq, Eq, Structural)]
pub enum MoveType {
    /// The piece goes to its destination and takes what stands there.
    Normal,
    /// A pawn reaches the last rank and becomes the named piece.
    PawnPromotion(PromotionType),
    /// A pawn takes a pawn that has just passed it by a double step.
    EnPassant,
    /// King and rook move together; the pair of squares is the rook's.
    Castling(CastlingType, FromTo),
}

impl MoveType {
    /// The character that stands for this type: `-` for a normal move, the
    /// promotion's letter (`Q`, `R`, `K`, `B`) for a promotion, `e` for en passant, `c` for castling
    /// on the king's wing and `C` on the queen's.
    pub open spec fn letter(self) -> char {
        match self {
            MoveType::Normal => '-',
            MoveType::PawnPromotion(p) => p.letter(),
            MoveType::EnPassant => 'e',
            MoveType::Castling(CastlingType::KingSide, _) => 'c',
            MoveType::Castling(CastlingType::QueenSide, _) => 'C',
        }
    }

    /// What reading `text` as a move type gives. Only a normal move and the
    /// four promotions can be read.
    pub open spec fn parse(text: Seq<char>) -> Result<MoveType, ChessError> {
        if text.len() != 1 {
            Err(ChessError::MoveTypeFormat(text.len() as usize))
        } else if text[0] == '-' {
            Ok(MoveType::Normal)
        } else {
            match PromotionType::of_letter(text[0]) {
                Some(p) => Ok(MoveType::PawnPromotion(p)),
                None => Err(ChessError::BadMoveType(text[0])),
            }
        }
    }

    /// Returns the character that stands for this type.
    pub fn get_char(&self) -> (c: char)
        ensures
            c == self.letter(),
    {
        match self {
            MoveType::Normal => '-',
            MoveType::PawnPromotion(p) => p.get_char(),
            MoveType::EnPassant => 'e',
            MoveType::Castling(CastlingType::KingSide, _) => 'c',
            MoveType::Castling(CastlingType::QueenSide, _) => 'C',
        }
    }

    /// Reads a move type from its one-character name.
    pub fn from_str(s: &str) -> (r: Result<MoveType, ChessError>)
        ensures
            r == MoveType::parse(s@),
    {
        let n = s.unicode_len();
        if n != 1 {
            return Err(ChessError::MoveTypeFormat(n));
        }
        let c = s.get_char(0);
        if c == '-' {
            return Ok(MoveType::Normal);
        }
        match PromotionType::from_char(c) {
            Some(p) => Ok(MoveType::PawnPromotion(p)),
            None => Err(ChessError::BadMoveType(c)),
        }
    }

    /// The one-character name of this type.
    pub fn to_string(&self) -> (s: String)
        ensures
            s@ == seq![self.letter()],
    {
        let mut s = String::new();
        s.push(self.get_char());
        proof {
            assert(s@ =~= seq![self.letter()]);
        }
        s
    }
}

/// A text that is no move type is refused as ill-formed, and the message
/// holds the text.
pub proof fn lemma_refused_move_type_is_named(text: Seq<char>)
    requires
        MoveType::parse(text) is Err,
    ensures
        MoveType::parse(text)->Err_0.kind_of() == ErrorKind::IllegalFormat,
        MoveType::parse(text)->Err_0.message(text) == "unknown move type: "@ + text
            + ". Only '-QRKB' are allowed."@,
{
    if text.len() == 1 {
        assert("unknown move type: "@.push(text[0]) =~= "unknown move type: "@ + text);
    }
}

/// A move as it is written down: the two squares and, for a pawn that
/// reaches the last rank, the piece it becomes.
#[derive(Debug, Copy, Clone, PartialEq, Eq, Structural)]
pub struct Move {
    pub from_to: FromTo,
    pub promotion_type: Option<PromotionType>,
}

/// The characters of a written move: the two squares, then the letter of
/// the promotion if there is one.
pub open spec fn move_text(mv: Move) -> Seq<char> {
    from_to_text(mv.from_to.from@, mv.from_to.to@) + match mv.promotion_type {
        Some(p) => seq![p.letter()],
        None => Seq::<char>::empty(),
    }
}

/// What reading `text` as a written move gives: the two square indices and
/// the promotion, or the reason for the first thing that is wrong. Four
/// characters are a move without promotion, five a move with one.
pub open spec fn parse_move(text: Seq<char>) -> Result<(int, int, Option<PromotionType>), ChessError> {
    if text.len() == 4 {
        match parse_from_to(text) {
            Err(e) => Err(e),
            Ok((from, to)) => Ok((from, to, None)),
        }
    } else if text.len() == 5 {
        match parse_from_to(text.subrange(0, 4)) {
            Err(e) => Err(e),
            Ok((from, to)) => match PromotionType::of_letter(text[4]) {
                Some(p) => Ok((from, to, Some(p))),
                None => Err(ChessError::BadPromotion(text[4])),
            },
        }
    } else {
        Err(ChessError::MoveFormat(text.len() as usize))
    }
}

/// A text of neither four nor five characters is refused as an ill-formed
/// move, and the message holds the text.
pub proof fn lemma_ill_shaped_move_is_named(text: Seq<char>)
    requires
        text.len() != 4,
        text.len() != 5,
    ensures
        parse_move(text) is Err,
        parse_move(text)->Err_0.kind_of() == ErrorKind::IllegalFormat,
        parse_move(text)->Err_0.message(text) == "illegal move format: "@ + text,
{
}

/// Reading the written form of a move gives the move back.
pub proof fn lemma_move_text_round_trip(mv: Move)
    requires
        is_square(mv.from_to.from@),
        is_square(mv.from_to.to@),
    ensures
        parse_move(move_text(mv)) == Ok::<(int, int, Option<PromotionType>), ChessError>(
            mv.parts(),
        ),
{
    let text = move_text(mv);
    let head = from_to_text(mv.from_to.from@, mv.from_to.to@);
    lemma_from_to_text_round_trip(mv.from_to.from@, mv.from_to.to@);
    match mv.promotion_type {
        Some(p) => {
            assert(text.subrange(0, 4) =~= head);
            assert(text[4] == p.letter());
            PromotionType::lemma_letter_round_trip(p);
        },
        None => {
            assert(text =~= head);
        },
    }
}

impl Move {
    /// The move seen as two square indices and the promotion.
    pub open spec fn parts(self) -> (int, int, Option<PromotionType>) {
        (self.from_to.from@, self.from_to.to@, self.promotion_type)
    }

    /// A move without promotion.
    pub fn new(from_to: FromTo) -> (mv: Move)
        ensures
            mv == (Move { from_to, promotion_type: None }),
    {
        Move { from_to, promotion_type: None }
    }

    /// A pawn move to the last rank.
    pub fn new_with_promotion(from_to: FromTo, promotion_type: PromotionType) -> (mv: Move)
        ensures
            mv == (Move { from_to, promotion_type: Some(promotion_type) }),
    {
        Move { from_to, promotion_type: Some(promotion_type) }
    }

    /// Reads a written move such as `e2e4` or `b7a8Q`.
    pub fn from_str(code: &str) -> (r: Result<Move, ChessError>)
        ensures
            match r {
                Ok(mv) => parse_move(code@) == Ok::<
                    (int, int, Option<PromotionType>),
                    ChessError,
                >(mv.parts()),
                Err(e) => parse_move(code@) == Err::<(int, int, Option<PromotionType>), ChessError>(
                    e,
                ),
            },
    {
        let chars = chars_of(code);
        match chars.len() {
            4 => {
                match FromTo::from_chars(&chars) {
                    Ok(from_to) => Ok(Move::new(from_to)),
                    Err(e) => Err(e),
                }
            },
            5 => {
                let mut head: Vec<char> = Vec::new();
                head.push(chars[0]);
                head.push(chars[1]);
                head.push(chars[2]);
                head.push(chars[3]);
                proof {
                    assert(head@ =~= chars@.subrange(0, 4));
                }
                let from_to = match FromTo::from_chars(&head) {
                    Ok(from_to) => from_to,
                    Err(e) => {
                        return Err(e);
                    },
                };
                match PromotionType::from_char(chars[4]) {
                    Some(p) => Ok(Move::new_with_promotion(from_to, p)),
                    None => Err(ChessError::BadPromotion(chars[4])),
                }
            },
            _ => Err(ChessError::MoveFormat(chars.len())),
        }
    }

    /// The written form of this move.
    pub fn to_string(&self) -> (s: String)
        ensures
            s@ == move_text(*self),
    {
        let mut s = self.from_to.to_string();
        if let Some(promotion_type) = self.promotion_type {
            s.push(promotion_type.get_char());
        }
        proof {
            assert(s@ =~= move_text(*self));
        }
        s
    }
}

/// A move as it is played in a given position: where the piece goes, what
/// it takes, whether a pawn moves, and how the move is carried out.
#[derive(Debug, Copy, Clone, PartialEq, Eq, Structural)]
pub struct MoveData {
    pub main_move: FromTo,
    /// The kind of piece taken, if one is.
    pub figure_captured: Option<FigureType>,
    pub is_pawn_move: bool,
    pub move_type: MoveType,
}

/// Whether `king_from` and `rook_from` are the home squares of a side's
/// king and of one of its rooks.
pub open spec fn castling_homes(king_from: int, rook_from: int) -> bool {
    (king_from == 4 || king_from == 60) && (rook_from == king_from + 3 || rook_from == king_from
        - 4)
}

impl MoveData {
    /// The promotion that this move carries, if it is one.
    pub open spec fn promotion(self) -> Option<PromotionType> {
        match self.move_type {
            MoveType::PawnPromotion(p) => Some(p),
            _ => None,
        }
    }

    /// The move as it is written down.
    pub open spec fn written(self) -> Move {
        Move { from_to: self.main_move, promotion_type: self.promotion() }
    }

    /// A normal move that takes a piece of the given kind, or none.
    pub fn new(main_move: FromTo, figure_caught: Option<FigureType>) -> (m: MoveData)
        ensures
            m == (MoveData {
                main_move,
                figure_captured: figure_caught,
                is_pawn_move: false,
                move_type: MoveType::Normal,
            }),
    {
        MoveData {
            main_move,
            figure_captured: figure_caught,
            is_pawn_move: false,
            move_type: MoveType::Normal,
        }
    }

    /// A pawn's capture in passing.
    pub fn new_en_passant(main_move: FromTo) -> (m: MoveData)
        ensures
            m == (MoveData {
                main_move,
                figure_captured: Some(FigureType::Pawn),
                is_pawn_move: true,
                move_type: MoveType::EnPassant,
            }),
    {
        MoveData {
            main_move,
            figure_captured: Some(FigureType::Pawn),
            is_pawn_move: true,
            move_type: MoveType::EnPassant,
        }
    }

    /// Castling of the king on its home square `king_from` with the rook on
    /// its home square `rook_from`. The king goes two files towards the
    /// rook, and the rook to the square the king has passed over.
    pub fn new_castling(king_from: Position, rook_from: Position) -> (m: MoveData)
        requires
            castling_homes(king_from@, rook_from@),
        ensures
            m.main_move.from == king_from,
            m.figure_captured is None,
            !m.is_pawn_move,
            rook_from@ > king_from@ ==> m.main_move.to@ == king_from@ + 2 && m.move_type
                == MoveType::Castling(
                CastlingType::KingSide,
                FromTo { from: rook_from, to: Position::at(king_from@ + 1) },
            ),
            rook_from@ < king_from@ ==> m.main_move.to@ == king_from@ - 2 && m.move_type
                == MoveType::Castling(
                CastlingType::QueenSide,
                FromTo { from: rook_from, to: Position::at(king_from@ - 1) },
            ),
    {
        let row = king_from.row();
        let king_side = rook_from.index() > king_from.index();
        let king_to = Position::new_unchecked(
            if king_side {
                6
            } else {
                2
            },
            row,
        );
        let rook_to = Position::new_unchecked(
            if king_side {
                5
            } else {
                3
            },
            row,
        );
        let castling_type = if king_side {
            CastlingType::KingSide
        } else {
            CastlingType::QueenSide
        };
        proof {
            Position::lemma_view_at(rook_to);
        }
        MoveData {
            main_move: FromTo::new(king_from, king_to),
            figure_captured: None,
            is_pawn_move: false,
            move_type: MoveType::Castling(castling_type, FromTo::new(rook_from, rook_to)),
        }
    }

    /// Whether the move takes a piece.
    pub fn did_catch_figure(&self) -> (b: bool)
        ensures
            b == (self.figure_captured is Some),
    {
        self.figure_captured.is_some()
    }

    /// Returns the move as it is written down.
    pub fn to_move(&self) -> (mv: Move)
        ensures
            mv == self.written(),
    {
        match self.move_type {
            MoveType::PawnPromotion(p) => Move::new_with_promotion(self.main_move, p),
            _ => Move::new(self.main_move),
        }
    }
}

/// The number of moves that a list of moves is laid out for.
pub const EXPECTED_MAX_NUMBER_OF_MOVES: usize = 80;

/// Room for `EXPECTED_MAX_NUMBER_OF_MOVES` written moves, each slot holding
/// a move or nothing.
#[derive(Debug, Copy, Clone, PartialEq, Eq)]
pub struct MoveArray {
    array: [Option<Move>; 80],
}

impl View for MoveArray {
    type V = Seq<Option<Move>>;

    closed spec fn view(&self) -> Seq<Option<Move>> {
        self.array@
    }
}

impl MoveArray {
    /// Room in which every slot is empty.
    pub fn default() -> (slots: MoveArray)
        ensures
            forall|i: int| 0 <= i < EXPECTED_MAX_NUMBER_OF_MOVES ==> slots@[i] is None,
    {
        MoveArray { array: [None; 80] }
    }

    /// The slots, in order.
    pub fn as_slice(&self) -> (slots: &[Option<Move>])
        ensures
            slots@ == self@,
    {
        self.array.as_slice()
    }

    /// The slots, in order, to be written to.
    pub fn as_slice_mut(&mut self) -> (slots: &mut [Option<Move>])
        ensures
            slots@ == old(self)@,
            final(slots)@ == final(self)@,
    {
        &mut self.array
    }
}

} // verus!
