//! What holds of the compact code whatever the game.

use vstd::prelude::*;
use crate::a_move::{Move, MoveData, MoveType, PromotionType};
use crate::codec::{
    decode_from, decode_spec, encode_move, encode_spec, read_move, symbol_char, symbol_count,
    symbol_value,
};
use crate::errors::ChessError;
use crate::game::{apply_move, positions_of, lemma_positions_len, Snapshot};
use crate::position::{is_square, Position};
use crate::rules::{check_move, classify, is_promotion_step, mover_ready};

verus! {

/// Whether both squares of `mv` are squares of the board.
pub open spec fn on_squares(mv: Move) -> bool {
    is_square(mv.from_to.from@) && is_square(mv.from_to.to@)
}

/// Whether the written moves can be played one after the other from `s`.
pub open spec fn legal_game(s: Snapshot, moves: Seq<Move>) -> bool
    decreases moves.len(),
{
    moves.len() == 0 || {
        &&& on_squares(moves[0])
        &&& check_move(s, moves[0]) is Ok
        &&& legal_game(apply_move(s, check_move(s, moves[0])->Ok_0), moves.drop_first())
    }
}

/// The moves that are made when the written moves are played one after the
/// other from `s`.
pub open spec fn played(s: Snapshot, moves: Seq<Move>) -> Seq<MoveData>
    decreases moves.len(),
{
    if moves.len() == 0 {
        Seq::<MoveData>::empty()
    } else {
        seq![classify(s, moves[0])] + played(
            apply_move(s, classify(s, moves[0])),
            moves.drop_first(),
        )
    }
}

/// The written forms of a list of moves.
pub open spec fn written_moves(moves: Seq<MoveData>) -> Seq<Move> {
    Seq::new(moves.len(), |i: int| moves[i].written())
}

/// Every number from 0 to 63 is found again from its symbol.
pub proof fn lemma_symbol_round_trip(v: int)
    requires
        is_square(v),
    ensures
        symbol_value(symbol_char(v)) == Some(v),
{
}

/// A move that can be played is written down again as it was given.
pub proof fn lemma_written_as_given(s: Snapshot, mv: Move)
    requires
        check_move(s, mv) is Ok,
    ensures
        check_move(s, mv) == Ok::<MoveData, ChessError>(classify(s, mv)),
        classify(s, mv).written() == mv,
        mv.promotion_type is Some <==> mover_ready(s, mv.from_to.from@) && is_promotion_step(
            s.squares,
            mv.from_to.from@,
            mv.from_to.to@,
        ),
{
}

/// The symbols of a playable move are read back as that move.
proof fn lemma_read_encoded(pre: Seq<char>, mv: Move, post: Seq<char>, s: Snapshot)
    requires
        on_squares(mv),
        check_move(s, mv) is Ok,
    ensures
        read_move(pre + encode_move(mv) + post, pre.len() as int, s) == Ok::<Move, ChessError>(
            mv,
        ),
        symbol_count(mv) == encode_move(mv).len(),
{
    let code = pre + encode_move(mv) + post;
    let i = pre.len() as int;
    let from = mv.from_to.from@;
    let to = mv.from_to.to@;
    lemma_written_as_given(s, mv);
    lemma_symbol_round_trip(from);
    lemma_symbol_round_trip(to);
    Position::lemma_view_at(mv.from_to.from);
    Position::lemma_view_at(mv.from_to.to);
    assert(code[i] == symbol_char(from));
    assert(code[i + 1] == symbol_char(to));
    match mv.promotion_type {
        Some(p) => {
            assert(encode_move(mv).len() == 3);
            assert(code[i + 2] == p.letter());
            PromotionType::lemma_letter_round_trip(p);
            assert(symbol_value(p.letter()) is Some);
        },
        None => {
            assert(encode_move(mv).len() == 2);
        },
    }
}

/// The code of a legal game, read behind any symbols already dealt with,
/// gives the moves of that game.
proof fn lemma_decode_encoded(pre: Seq<char>, moves: Seq<Move>, s: Snapshot)
    requires
        legal_game(s, moves),
    ensures
        decode_from(pre + encode_spec(moves), pre.len() as int, s) == Ok::<
            Seq<MoveData>,
            ChessError,
        >(played(s, moves)),
    decreases moves.len(),
{
    let code = pre + encode_spec(moves);
    let i = pre.len() as int;
    if moves.len() == 0 {
        assert(code =~= pre);
    } else {
        let mv = moves[0];
        let rest = moves.drop_first();
        let tail = encode_spec(rest);
        assert(code =~= pre + encode_move(mv) + tail);
        lemma_read_encoded(pre, mv, tail, s);
        lemma_written_as_given(s, mv);
        let made = classify(s, mv);
        let next = apply_move(s, made);
        let pre2 = pre + encode_move(mv);
        assert(code =~= pre2 + tail);
        lemma_decode_encoded(pre2, rest, next);
        assert(pre2.len() == i + encode_move(mv).len());
        assert(i < code.len());
    }
}

/// Writing a legal game down and reading it back gives the game: the code
/// of the written moves decodes, from the same first position, to the moves
/// as they are made, and these are written down as the moves that were
/// given.
pub proof fn lemma_round_trip(s: Snapshot, moves: Seq<Move>)
    requires
        legal_game(s, moves),
    ensures
        decode_spec(encode_spec(moves), s) == Ok::<Seq<MoveData>, ChessError>(played(s, moves)),
        written_moves(played(s, moves)) == moves,
{
    lemma_decode_encoded(Seq::<char>::empty(), moves, s);
    assert(Seq::<char>::empty() + encode_spec(moves) =~= encode_spec(moves));
    lemma_played_written(s, moves);
}

/// The moves made in a legal game are written down as the moves given.
proof fn lemma_played_written(s: Snapshot, moves: Seq<Move>)
    requires
        legal_game(s, moves),
    ensures
        played(s, moves).len() == moves.len(),
        written_moves(played(s, moves)) == moves,
    decreases moves.len(),
{
    if moves.len() == 0 {
        assert(written_moves(played(s, moves)) =~= moves);
    } else {
        let mv = moves[0];
        lemma_written_as_given(s, mv);
        let next = apply_move(s, classify(s, mv));
        lemma_played_written(next, moves.drop_first());
        let all = played(s, moves);
        let rest = played(next, moves.drop_first());
        assert forall|k: int| 0 <= k < moves.len() implies written_moves(all)[k] == moves[k] by {
            if k > 0 {
                assert(all[k] == rest[k - 1]);
                assert(written_moves(rest)[k - 1] == moves.drop_first()[k - 1]);
            }
        }
        assert(written_moves(all) =~= moves);
    }
}

/// The positions that reading the code of a legal game gives are those that
/// playing the moves gives, one more than there are moves.
pub proof fn lemma_round_trip_positions(s: Snapshot, moves: Seq<Move>)
    requires
        legal_game(s, moves),
    ensures
        decode_spec(encode_spec(moves), s) is Ok,
        positions_of(s, decode_spec(encode_spec(moves), s)->Ok_0) == positions_of(
            s,
            played(s, moves),
        ),
        positions_of(s, played(s, moves)).len() == moves.len() + 1,
{
    lemma_round_trip(s, moves);
    lemma_played_written(s, moves);
    lemma_positions_len(s, played(s, moves));
}

/// A pawn's move to the last rank is read back with the promotion it was
/// written with, whichever of the four pieces that is.
pub proof fn lemma_promotion_round_trip(s: Snapshot, mv: Move, kind: PromotionType)
    requires
        on_squares(mv),
        mv.promotion_type == Some(kind),
        check_move(s, mv) is Ok,
    ensures
        decode_spec(encode_spec(seq![mv]), s) == Ok::<Seq<MoveData>, ChessError>(
            seq![classify(s, mv)],
        ),
        classify(s, mv).move_type == MoveType::PawnPromotion(kind),
        encode_spec(seq![mv]) == seq![
            symbol_char(mv.from_to.from@),
            symbol_char(mv.from_to.to@),
            kind.letter(),
        ],
{
    let moves = seq![mv];
    assert(moves.drop_first() =~= Seq::<Move>::empty());
    assert(legal_game(apply_move(s, check_move(s, mv)->Ok_0), moves.drop_first()));
    assert(legal_game(s, moves));
    lemma_round_trip(s, moves);
    lemma_written_as_given(s, mv);
    assert(played(apply_move(s, classify(s, mv)), moves.drop_first()) =~= Seq::<
        MoveData,
    >::empty());
    assert(played(s, moves) =~= seq![classify(s, mv)]);
    assert(encode_spec(moves.drop_first()) =~= Seq::<char>::empty());
    assert(encode_spec(moves) =~= seq![
        symbol_char(mv.from_to.from@),
        symbol_char(mv.from_to.to@),
        kind.letter(),
    ]);
}

/// Whether every character of `code` from place `i` on is a symbol.
pub open spec fn all_symbols_from(code: Seq<char>, i: int) -> bool {
    forall|k: int| i <= k < code.len() ==> symbol_value(#[trigger] code[k]) is Some
}

/// A code that can be read from symbol `i` on holds only symbols from there.
proof fn lemma_decoded_is_symbols(code: Seq<char>, i: int, s: Snapshot)
    requires
        0 <= i,
        decode_from(code, i, s) is Ok,
    ensures
        all_symbols_from(code, i),
    decreases code.len() - i,
{
    if i < code.len() {
        let r = read_move(code, i, s);
        assert(r is Ok);
        let mv = r->Ok_0;
        let made = check_move(s, mv)->Ok_0;
        let used = symbol_count(mv);
        lemma_decoded_is_symbols(code, i + used, apply_move(s, made));
        assert forall|k: int| i <= k < code.len() implies symbol_value(#[trigger] code[k])
            is Some by {
            if k == i + 2 && used == 3 {
                assert(symbol_value(code[i + 2]) is Some);
            }
        }
    }
}

/// A code with a character that is no symbol cannot be read: reading it
/// fails, whatever the position it starts from.
pub proof fn lemma_foreign_character_refused(code: Seq<char>, s: Snapshot, k: int)
    requires
        0 <= k < code.len(),
        symbol_value(code[k]) is None,
    ensures
        decode_spec(code, s) is Err,
{
    if decode_spec(code, s) is Ok {
        lemma_decoded_is_symbols(code, 0, s);
        assert(symbol_value(code[k]) is Some);
    }
}

/// Where the symbols before a foreign character can be read, reading on
/// from symbol `i` is refused for that character.
proof fn lemma_refused_at_foreign_character(code: Seq<char>, k: int, i: int, s: Snapshot)
    requires
        0 <= i <= k < code.len(),
        symbol_value(code[k]) is None,
        decode_from(code.take(k), i, s) is Ok,
    ensures
        decode_from(code, i, s) == Err::<Seq<MoveData>, ChessError>(ChessError::BadSymbol(code[k])),
    decreases k - i,
{
    let head = code.take(k);
    if i < k {
        let mv = read_move(head, i, s)->Ok_0;
        assert(read_move(head, i, s) is Ok);
        assert(head[i] == code[i]);
        assert(i + 1 < k);
        assert(head[i + 1] == code[i + 1]);
        if mv.promotion_type is Some {
            assert(i + 2 < k);
            assert(head[i + 2] == code[i + 2]);
        }
        assert(read_move(code, i, s) == Ok::<Move, ChessError>(mv));
        let made = check_move(s, mv)->Ok_0;
        lemma_refused_at_foreign_character(code, k, i + symbol_count(mv), apply_move(s, made));
    }
}

/// A code that can be read up to a character that is no symbol is refused
/// for that character: the failure names it.
pub proof fn lemma_foreign_character_named(code: Seq<char>, s: Snapshot, k: int)
    requires
        0 <= k < code.len(),
        symbol_value(code[k]) is None,
        decode_spec(code.take(k), s) is Ok,
    ensures
        decode_spec(code, s) == Err::<Seq<MoveData>, ChessError>(ChessError::BadSymbol(code[k])),
        ChessError::BadSymbol(code[k]).kind_of() == crate::errors::ErrorKind::IllegalFormat,
{
    lemma_refused_at_foreign_character(code, k, 0, s);
}

} // verus!
