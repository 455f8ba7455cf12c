//! A game read from its compact code and written out for display: the FEN
//! record of every position and the notation of every move.

use vstd::prelude::*;
use vstd::string::StringExecFns;
use crate::a_move::MoveData;
use crate::codec::{decode_spec, decompress};
use crate::errors::ChessError;
use crate::fen::fen;
use crate::game::{classic_snapshot, positions_of, snapshots, GameState, Snapshot};
use crate::notation::{notation, to_move_notation};

verus! {

/// A game for display. There is one FEN record more than there are moves:
/// the record at place `i` is the position before move `i`, and the last
/// one is the position the game has reached.
#[derive(Debug, PartialEq, Eq)]
pub struct Game {
    pub vec_of_fen: Vec<String>,
    pub vec_of_moves: Vec<String>,
}

/// The characters of each of a list of strings.
pub open spec fn texts(list: Seq<String>) -> Seq<Seq<char>> {
    Seq::new(list.len(), |i: int| list[i]@)
}

/// The FEN record of each position.
pub open spec fn fens_of(positions: Seq<Snapshot>) -> Seq<Seq<char>> {
    Seq::new(positions.len(), |i: int| fen(positions[i]))
}

/// The notation of each move, written against the position before it.
pub open spec fn notations_of(positions: Seq<Snapshot>, moves: Seq<MoveData>) -> Seq<Seq<char>> {
    Seq::new(moves.len(), |i: int| notation(positions[i], moves[i]))
}

/// Writes out a game given by its positions and the moves between them.
/// The game is refused if the positions do not number one more than the
/// moves.
pub fn assemble_game(positions: &Vec<GameState>, moves: &Vec<MoveData>) -> (r: Result<
    Game,
    ChessError,
>)
    ensures
        match r {
            Ok(game) => {
                &&& positions@.len() == moves@.len() + 1
                &&& texts(game.vec_of_fen@) == fens_of(snapshots(positions@))
                &&& texts(game.vec_of_moves@) == notations_of(snapshots(positions@), moves@)
                &&& game.vec_of_fen@.len() == game.vec_of_moves@.len() + 1
            },
            Err(e) => positions@.len() != moves@.len() + 1 && e == ChessError::CountMismatch(
                positions.len(),
                moves.len(),
            ),
        },
{
    if positions.len() == 0 || moves.len() != positions.len() - 1 {
        return Err(ChessError::CountMismatch(positions.len(), moves.len()));
    }
    let mut vec_of_fen: Vec<String> = Vec::new();
    let mut i: usize = 0;
    while i < positions.len()
        invariant
            0 <= i <= positions.len(),
            vec_of_fen@.len() == i,
            forall|k: int| 0 <= k < i ==> (#[trigger] vec_of_fen@[k])@ == fen(positions@[k]@),
        decreases positions.len() - i,
    {
        vec_of_fen.push(positions[i].get_fen());
        i = i + 1;
    }
    let mut vec_of_moves: Vec<String> = Vec::new();
    let mut j: usize = 0;
    while j < moves.len()
        invariant
            0 <= j <= moves.len(),
            positions@.len() == moves@.len() + 1,
            vec_of_moves@.len() == j,
            forall|k: int|
                0 <= k < j ==> (#[trigger] vec_of_moves@[k])@ == notation(
                    positions@[k]@,
                    moves@[k],
                ),
        decreases moves.len() - j,
    {
        vec_of_moves.push(to_move_notation(&moves[j], &positions[j]));
        j = j + 1;
    }
    proof {
        assert(texts(vec_of_fen@) =~= fens_of(snapshots(positions@)));
        assert(texts(vec_of_moves@) =~= notations_of(snapshots(positions@), moves@));
    }
    Ok(Game { vec_of_fen, vec_of_moves })
}

/// The greeting for `name`.
pub fn greeting_for(name: &str) -> (greeting: String)
    ensures
        greeting@ == "Hello, "@ + name@,
{
    let mut greeting = "Hello, ".to_owned();
    greeting.append(name);
    greeting
}

/// Reads the compact code of a game that starts from the usual first
/// position and writes the game out: the FEN record of each position and
/// the notation of each move; or says what is wrong with the code.
pub fn decode_moves(base64_encoded: &str) -> (r: Result<Game, ChessError>)
    ensures
        match r {
            Ok(game) => {
                &&& decode_spec(base64_encoded@, classic_snapshot()) is Ok
                &&& texts(game.vec_of_fen@) == fens_of(
                    positions_of(
                        classic_snapshot(),
                        decode_spec(base64_encoded@, classic_snapshot())->Ok_0,
                    ),
                )
                &&& texts(game.vec_of_moves@) == notations_of(
                    positions_of(
                        classic_snapshot(),
                        decode_spec(base64_encoded@, classic_snapshot())->Ok_0,
                    ),
                    decode_spec(base64_encoded@, classic_snapshot())->Ok_0,
                )
                &&& game.vec_of_fen@.len() == game.vec_of_moves@.len() + 1
            },
            Err(e) => decode_spec(base64_encoded@, classic_snapshot()) == Err::<
                Seq<MoveData>,
                ChessError,
            >(e),
        },
{
    match decompress(base64_encoded) {
        Ok((positions_data, moves_data)) => {
            match assemble_game(&positions_data, &moves_data) {
                Ok(game) => Ok(game),
                Err(e) => {
                    proof {
                        assert(false);
                    }
                    Err(e)
                },
            }
        },
        Err(err) => Err(err),
    }
}

} // verus!
