//! The compact code: a game as a string of URL-safe symbols.
//!
//! Each of the 64 symbols `A`..`Z`, `a`..`z`, `0`..`9`, `-`, `_` stands for
//! a number from 0 to 63, as in URL-safe base 64. A move is written as the
//! symbol of its origin square and the symbol of its destination square.
//! Where a pawn reaches the last rank, a third symbol follows: the letter
//! that stands for the promotion, `Q` for the queen, `R` for the rook, `K`
//! for the knight or `B` for the bishop. Nothing separates the moves,
//! so a code can only be read from the left, with the position at hand.

use vstd::prelude::*;
use crate::a_move::{FromTo, Move, MoveData, PromotionType};
use crate::errors::ChessError;
use crate::game::{apply_move, classic_snapshot, positions_of, snapshots, GameState, Snapshot};
use crate::position::{is_square, opt_index, Position};
use crate::rules::{check_move, is_promotion_step, mover_ready};
use crate::text::chars_of;

verus! {

/// The symbol that stands for the number `v`.
pub open spec fn symbol_char(v: int) -> char {
    if v < 26 {
        (65 + v) as char
    } else if v < 52 {
        (97 + (v - 26)) as char
    } else if v < 62 {
        (48 + (v - 52)) as char
    } else if v == 62 {
        '-'
    } else {
        '_'
    }
}

/// The number that the symbol `c` stands for, if `c` is a symbol.
pub open spec fn symbol_value(c: char) -> Option<int> {
    if 'A' <= c <= 'Z' {
        Some(c as int - 65)
    } else if 'a' <= c <= 'z' {
        Some(c as int - 97 + 26)
    } else if '0' <= c <= '9' {
        Some(c as int - 48 + 52)
    } else if c == '-' {
        Some(62)
    } else if c == '_' {
        Some(63)
    } else {
        None
    }
}

/// The symbols of one move.
pub open spec fn encode_move(mv: Move) -> Seq<char> {
    seq![symbol_char(mv.from_to.from@), symbol_char(mv.from_to.to@)] + match mv.promotion_type {
        Some(p) => seq![p.letter()],
        None => Seq::<char>::empty(),
    }
}

/// The code of a list of moves: the symbols of each move, in order.
pub open spec fn encode_spec(moves: Seq<Move>) -> Seq<char>
    decreases moves.len(),
{
    if moves.len() == 0 {
        Seq::<char>::empty()
    } else {
        encode_move(moves[0]) + encode_spec(moves.drop_first())
    }
}

/// The number of symbols that a move takes: three with a promotion, else
/// two.
pub open spec fn symbol_count(mv: Move) -> int {
    if mv.promotion_type is Some {
        3
    } else {
        2
    }
}

/// The written move that starts at symbol `i` of `code` when the position
/// is `s`, or why there is none.
///
/// Two symbols name the squares. If a pawn of the side to move stands on
/// the first and the second lies on the rank where it promotes, a third
/// symbol names the piece it becomes.
pub open spec fn read_move(code: Seq<char>, i: int, s: Snapshot) -> Result<Move, ChessError> {
    match symbol_value(code[i]) {
        None => Err(ChessError::BadSymbol(code[i])),
        Some(from) => if i + 1 >= code.len() {
            Err(ChessError::DanglingSymbol(code[i]))
        } else {
            match symbol_value(code[i + 1]) {
                None => Err(ChessError::BadSymbol(code[i + 1])),
                Some(to) => {
                    let from_to = FromTo { from: Position::at(from), to: Position::at(to) };
                    if mover_ready(s, from) && is_promotion_step(s.squares, from, to) {
                        if i + 2 >= code.len() {
                            Err(ChessError::MissingPromotion)
                        } else if symbol_value(code[i + 2]) is None {
                            Err(ChessError::BadSymbol(code[i + 2]))
                        } else {
                            match PromotionType::of_letter(code[i + 2]) {
                                None => Err(ChessError::BadPromotion(code[i + 2])),
                                Some(p) => Ok(Move { from_to, promotion_type: Some(p) }),
                            }
                        }
                    } else {
                        Ok(Move { from_to, promotion_type: None })
                    }
                },
            }
        },
    }
}

/// The moves that the symbols of `code` from symbol `i` on stand for when
/// the position is `s`, or the first thing that is wrong with them. Each
/// move is read, checked against the position and played before the next.
pub open spec fn decode_from(code: Seq<char>, i: int, s: Snapshot) -> Result<
    Seq<MoveData>,
    ChessError,
>
    decreases code.len() - i,
{
    if i >= code.len() || i < 0 {
        Ok(Seq::<MoveData>::empty())
    } else {
        match read_move(code, i, s) {
            Err(e) => Err(e),
            Ok(mv) => match check_move(s, mv) {
                Err(e) => Err(e),
                Ok(made) => match decode_from(code, i + symbol_count(mv), apply_move(s, made)) {
                    Err(e) => Err(e),
                    Ok(rest) => Ok(seq![made] + rest),
                },
            },
        }
    }
}

/// The moves that `code` stands for when the game starts from `s`, or the
/// first thing that is wrong with it.
pub open spec fn decode_spec(code: Seq<char>, s: Snapshot) -> Result<Seq<MoveData>, ChessError> {
    decode_from(code, 0, s)
}

/// `moves` put in front of what the rest of a code gave.
pub open spec fn prepend(moves: Seq<MoveData>, rest: Result<Seq<MoveData>, ChessError>) -> Result<
    Seq<MoveData>,
    ChessError,
> {
    match rest {
        Ok(tail) => Ok(moves + tail),
        Err(e) => Err(e),
    }
}

/// Returns the symbol that stands for the square.
pub fn symbol_for(pos: Position) -> (c: char)
    ensures
        c == symbol_char(pos@),
        symbol_value(c) == Some(pos@),
{
    let v = pos.index() as u8;
    if v < 26 {
        (65u8 + v) as char
    } else if v < 52 {
        (97u8 + (v - 26)) as char
    } else if v < 62 {
        (48u8 + (v - 52)) as char
    } else if v == 62 {
        '-'
    } else {
        '_'
    }
}

/// Returns the square that the symbol stands for, if `c` is a symbol.
pub fn square_of_symbol(c: char) -> (r: Option<Position>)
    ensures
        opt_index(r) == symbol_value(c),
        r is Some ==> is_square(r->0@),
{
    let v: u8 = if 'A' <= c && c <= 'Z' {
        c as u8 - 65
    } else if 'a' <= c && c <= 'z' {
        c as u8 - 97 + 26
    } else if '0' <= c && c <= '9' {
        c as u8 - 48 + 52
    } else if c == '-' {
        62
    } else if c == '_' {
        63
    } else {
        return None;
    };
    Position::from_index(v as usize)
}

/// The code of a list of moves.
pub fn compress(moves: &Vec<Move>) -> (code: String)
    ensures
        code@ == encode_spec(moves@),
{
    let mut code = String::new();
    let mut i: usize = 0;
    proof {
        assert(moves@.skip(0) =~= moves@);
    }
    while i < moves.len()
        invariant
            0 <= i <= moves.len(),
            code@ + encode_spec(moves@.skip(i as int)) == encode_spec(moves@),
        decreases moves.len() - i,
    {
        let mv = moves[i];
        let ghost before = code@;
        code.push(symbol_for(mv.from_to.from));
        code.push(symbol_for(mv.from_to.to));
        if let Some(p) = mv.promotion_type {
            code.push(p.get_char());
        }
        proof {
            let tail = moves@.skip(i as int);
            assert(tail[0] == mv);
            assert(tail.drop_first() =~= moves@.skip(i + 1));
            assert(code@ =~= before + encode_move(mv));
            assert(code@ + encode_spec(moves@.skip(i + 1)) =~= before + encode_spec(tail));
        }
        i = i + 1;
    }
    proof {
        assert(code@ + Seq::<char>::empty() =~= code@);
    }
    code
}

/// Reads the written move that starts at symbol `i`, and says how many
/// symbols it takes.
fn read_move_at(chars: &Vec<char>, i: usize, state: &GameState) -> (r: Result<
    (Move, usize),
    ChessError,
>)
    requires
        i < chars.len(),
    ensures
        match r {
            Ok((mv, used)) => read_move(chars@, i as int, state@) == Ok::<Move, ChessError>(mv)
                && used == symbol_count(mv) && i + used <= chars.len(),
            Err(e) => read_move(chars@, i as int, state@) == Err::<Move, ChessError>(e),
        },
{
    let from = match square_of_symbol(chars[i]) {
        Some(p) => p,
        None => {
            return Err(ChessError::BadSymbol(chars[i]));
        },
    };
    if i + 1 >= chars.len() {
        return Err(ChessError::DanglingSymbol(chars[i]));
    }
    let to = match square_of_symbol(chars[i + 1]) {
        Some(p) => p,
        None => {
            return Err(ChessError::BadSymbol(chars[i + 1]));
        },
    };
    let from_to = FromTo::new(from, to);
    proof {
        Position::lemma_view_at(from);
        Position::lemma_view_at(to);
    }
    if state.has_mover_on(from) && state.is_promotion_step(from, to) {
        if i + 2 >= chars.len() {
            return Err(ChessError::MissingPromotion);
        }
        let c = chars[i + 2];
        if square_of_symbol(c).is_none() {
            return Err(ChessError::BadSymbol(c));
        }
        match PromotionType::from_char(c) {
            Some(p) => Ok((Move::new_with_promotion(from_to, p), 3)),
            None => Err(ChessError::BadPromotion(c)),
        }
    } else {
        Ok((Move::new(from_to), 2))
    }
}

/// Reads a code against a game that starts from `start`: the positions the
/// game goes through, `start` first, and the moves between them; or the
/// first thing that is wrong with the code.
pub fn decompress_from(code: &str, start: &GameState) -> (r: Result<
    (Vec<GameState>, Vec<MoveData>),
    ChessError,
>)
    ensures
        match r {
            Ok((positions, moves)) => {
                &&& decode_spec(code@, start@) == Ok::<Seq<MoveData>, ChessError>(moves@)
                &&& snapshots(positions@) == positions_of(start@, moves@)
                &&& positions@.len() == moves@.len() + 1
            },
            Err(e) => decode_spec(code@, start@) == Err::<Seq<MoveData>, ChessError>(e),
        },
{
    let chars = chars_of(code);
    let mut positions: Vec<GameState> = Vec::new();
    let mut moves: Vec<MoveData> = Vec::new();
    let mut state = *start;
    positions.push(state);
    let mut i: usize = 0;
    proof {
        assert(moves@ + Seq::<MoveData>::empty() =~= moves@);
        assert(snapshots(positions@) =~= positions_of(start@, moves@));
    }
    while i < chars.len()
        invariant
            0 <= i <= chars.len(),
            chars@ == code@,
            decode_spec(code@, start@) == prepend(moves@, decode_from(chars@, i as int, state@)),
            snapshots(positions@) == positions_of(start@, moves@),
            positions@.len() == moves@.len() + 1,
            positions@.last() == state,
        decreases chars.len() - i,
    {
        let (mv, used) = match read_move_at(&chars, i, &state) {
            Ok(read) => read,
            Err(e) => {
                return Err(e);
            },
        };
        let made = match state.check_move(&mv) {
            Ok(made) => made,
            Err(e) => {
                return Err(e);
            },
        };
        let next = state.apply(&made);
        proof {
            let rest = decode_from(chars@, i + used, next@);
            assert(decode_from(chars@, i as int, state@) == prepend(seq![made], rest));
            if rest is Ok {
                assert(moves@ + (seq![made] + rest->Ok_0) =~= moves@.push(made) + rest->Ok_0);
            }
            assert(moves@.push(made).drop_last() =~= moves@);
            assert(snapshots(positions@.push(next)) =~= positions_of(start@, moves@.push(made)));
        }
        moves.push(made);
        positions.push(next);
        state = next;
        i = i + used;
    }
    proof {
        assert(moves@ + Seq::<MoveData>::empty() =~= moves@);
    }
    Ok((positions, moves))
}

/// Reads a code against a game that starts from the usual first position.
pub fn decompress(code: &str) -> (r: Result<(Vec<GameState>, Vec<MoveData>), ChessError>)
    ensures
        match r {
            Ok((positions, moves)) => {
                &&& decode_spec(code@, classic_snapshot()) == Ok::<Seq<MoveData>, ChessError>(
                    moves@,
                )
                &&& snapshots(positions@) == positions_of(classic_snapshot(), moves@)
                &&& positions@.len() == moves@.len() + 1
            },
            Err(e) => decode_spec(code@, classic_snapshot()) == Err::<Seq<MoveData>, ChessError>(
                e,
            ),
        },
{
    let start = GameState::classic();
    decompress_from(code, &start)
}

} // verus!
