use chess::a_move::{CastlingType, FromTo, Move, MoveData, MoveType, PromotionType};
use chess::base::{Color, Disallowable};
use chess::board::Board;
use chess::codec::{compress, decompress, decompress_from, square_of_symbol, symbol_for};
use chess::errors::{ChessError, ErrorKind};
use chess::figure::{Figure, FigureType};
use chess::game::GameState;
use chess::position::Position;

const EIGHT_MOVES: &str = "IY-tYgxhgp2upx92";

fn square(name: &str) -> Position {
    Position::from_str(name).unwrap()
}

fn state_with(pieces: &[(&str, FigureType, Color)], turn_by: Color) -> GameState {
    let mut board = Board::empty();
    for (name, fig_type, color) in pieces {
        board.set_figure(square(name), Some(Figure { fig_type: *fig_type, color: *color }));
    }
    GameState {
        board,
        turn_by,
        en_passant_intercept_pos: None,
        white_king_side: Disallowable::new(false),
        white_queen_side: Disallowable::new(false),
        black_king_side: Disallowable::new(false),
        black_queen_side: Disallowable::new(false),
        half_move_clock: 0,
        full_move_no: 1,
    }
}

fn written(moves: &[MoveData]) -> Vec<String> {
    moves.iter().map(|m| m.to_move().to_string()).collect()
}

#[test]
fn symbols_follow_the_url_safe_table() {
    let table = "ABCDEFGHIJKLMNOPQRSTUVWXYZabcdefghijklmnopqrstuvwxyz0123456789-_";
    for (i, c) in table.chars().enumerate() {
        let pos = Position::from_index(i).unwrap();
        assert_eq!(symbol_for(pos), c);
        assert_eq!(square_of_symbol(c), Some(pos));
    }
    for c in ['+', '/', '=', ' ', '!', '.', '@', '[', '`', '{', 'é', '\n'] {
        assert_eq!(square_of_symbol(c), None);
    }
}

#[test]
fn empty_code_is_an_empty_game() {
    let (positions, moves) = decompress("").unwrap();
    assert_eq!(moves.len(), 0);
    assert_eq!(positions.len(), 1);
    assert_eq!(
        positions[0].get_fen(),
        "rnbqkbnr/pppppppp/8/8/8/8/PPPPPPPP/RNBQKBNR w KQkq - 0 1"
    );
    assert_eq!(compress(&Vec::new()), "");
}

#[test]
fn eight_opening_moves_decode() {
    let (positions, moves) = decompress(EIGHT_MOVES).unwrap();
    assert_eq!(moves.len(), 8);
    assert_eq!(positions.len(), 9);
    assert_eq!(
        written(&moves),
        vec!["a2a4", "g8f6", "a4a5", "b7b5", "a5b6", "g7g6", "b6b7", "f8g7"]
    );
    for (i, made) in moves.iter().enumerate() {
        assert!(!matches!(made.move_type, MoveType::PawnPromotion(_)));
        assert!(!matches!(made.move_type, MoveType::Castling(_, _)));
        if i == 4 {
            // the pawn on a5 takes the pawn that has just passed it
            assert_eq!(made.move_type, MoveType::EnPassant);
            assert_eq!(made.figure_captured, Some(FigureType::Pawn));
        } else {
            assert_eq!(made.move_type, MoveType::Normal);
            assert_eq!(made.figure_captured, None);
        }
    }
    assert_eq!(
        moves.iter().map(|m| m.is_pawn_move).collect::<Vec<_>>(),
        vec![true, false, true, true, true, true, true, false]
    );
    assert_eq!(positions[8].turn_by, Color::White);
    assert_eq!(positions[1].turn_by, Color::Black);
    assert_eq!(positions[8].get_figure(square("b5")), None);
    assert_eq!(
        positions[8].get_figure(square("b7")),
        Some(Figure { fig_type: FigureType::Pawn, color: Color::White })
    );
}

#[test]
fn positions_are_those_of_playing_the_moves() {
    let (positions, moves) = decompress(EIGHT_MOVES).unwrap();
    let mut state = GameState::classic();
    assert_eq!(positions[0].get_fen(), state.get_fen());
    for (i, made) in moves.iter().enumerate() {
        let (again, next) = state.play(&made.to_move()).unwrap();
        assert_eq!(again, *made);
        assert_eq!(next.get_fen(), positions[i + 1].get_fen());
        assert_eq!(state.apply(made).get_fen(), positions[i + 1].get_fen());
        state = next;
    }
}

#[test]
fn promotion_with_capture_decodes() {
    let code = format!("{}x4Q", EIGHT_MOVES);
    let (positions, moves) = decompress(&code).unwrap();
    assert_eq!(moves.len(), 9);
    assert_eq!(positions.len(), 10);
    let last = moves[8];
    assert_eq!(last.main_move, FromTo::from_code("b7a8"));
    assert_eq!(last.move_type, MoveType::PawnPromotion(PromotionType::Queen));
    assert_eq!(last.figure_captured, Some(FigureType::Rook));
    assert!(last.is_pawn_move);
    assert_eq!(
        positions[9].get_figure(square("a8")),
        Some(Figure { fig_type: FigureType::Queen, color: Color::White })
    );
    assert_eq!(positions[9].get_figure(square("b7")), None);
    assert_eq!(positions[9].turn_by, Color::Black);
    assert!(!positions[9].black_queen_side.is_still_allowed());
    assert!(positions[9].black_king_side.is_still_allowed());
}

#[test]
fn each_promotion_kind_round_trips() {
    for (letter, kind) in [
        ('Q', PromotionType::Queen),
        ('R', PromotionType::Rook),
        ('K', PromotionType::Knight),
        ('B', PromotionType::Bishop),
    ] {
        let code = format!("{}x4{}", EIGHT_MOVES, letter);
        let (positions, moves) = decompress(&code).unwrap();
        assert_eq!(moves[8].move_type, MoveType::PawnPromotion(kind));
        assert_eq!(
            positions[9].get_figure(square("a8")),
            Some(Figure { fig_type: kind.get_figure_type(), color: Color::White })
        );
        let plain: Vec<Move> = moves.iter().map(|m| m.to_move()).collect();
        assert_eq!(plain[8], Move::new_with_promotion(FromTo::from_code("b7a8"), kind));
        assert_eq!(compress(&plain), code);
    }
}

#[test]
fn promotion_without_capture_from_a_given_position() {
    let start = state_with(
        &[
            ("b7", FigureType::Pawn, Color::White),
            ("e1", FigureType::King, Color::White),
            ("e8", FigureType::King, Color::Black),
        ],
        Color::White,
    );
    let mv = Move::new_with_promotion(FromTo::from_code("b7b8"), PromotionType::Knight);
    let code = compress(&vec![mv]);
    assert_eq!(code, "x5K");
    let (positions, moves) = decompress_from(&code, &start).unwrap();
    assert_eq!(moves.len(), 1);
    assert_eq!(moves[0].move_type, MoveType::PawnPromotion(PromotionType::Knight));
    assert_eq!(moves[0].figure_captured, None);
    assert_eq!(
        positions[1].get_figure(square("b8")),
        Some(Figure { fig_type: FigureType::Knight, color: Color::White })
    );
}

#[test]
fn black_promotes_on_the_first_rank() {
    let start = state_with(
        &[
            ("g2", FigureType::Pawn, Color::Black),
            ("h1", FigureType::Rook, Color::White),
            ("e1", FigureType::King, Color::White),
            ("e8", FigureType::King, Color::Black),
        ],
        Color::Black,
    );
    let (positions, moves) = decompress_from("OHR", &start).unwrap();
    assert_eq!(moves[0].main_move, FromTo::from_code("g2h1"));
    assert_eq!(moves[0].move_type, MoveType::PawnPromotion(PromotionType::Rook));
    assert_eq!(moves[0].figure_captured, Some(FigureType::Rook));
    assert_eq!(
        positions[1].get_figure(square("h1")),
        Some(Figure { fig_type: FigureType::Rook, color: Color::Black })
    );
    assert_eq!(positions[1].full_move_no, 2);
}

#[test]
fn castling_decodes_and_moves_the_rook() {
    let code = format!("{}x4Q8-", EIGHT_MOVES);
    let (positions, moves) = decompress(&code).unwrap();
    assert_eq!(moves.len(), 10);
    let castle = moves[9];
    assert_eq!(castle.main_move, FromTo::from_code("e8g8"));
    assert_eq!(
        castle.move_type,
        MoveType::Castling(CastlingType::KingSide, FromTo::from_code("h8f8"))
    );
    assert_eq!(castle.figure_captured, None);
    let after = positions[10];
    assert_eq!(
        after.get_figure(square("g8")),
        Some(Figure { fig_type: FigureType::King, color: Color::Black })
    );
    assert_eq!(
        after.get_figure(square("f8")),
        Some(Figure { fig_type: FigureType::Rook, color: Color::Black })
    );
    assert_eq!(after.get_figure(square("e8")), None);
    assert_eq!(after.get_figure(square("h8")), None);
    assert!(!after.black_king_side.is_still_allowed());
    assert!(!after.black_queen_side.is_still_allowed());
    assert!(after.white_king_side.is_still_allowed());
}

#[test]
fn castling_needs_the_permission_and_a_free_way() {
    // the bishop still stands on f1
    assert_eq!(decompress("EG"), Err(ChessError::Unreachable(4, 6)));
    let mut start = state_with(
        &[
            ("e1", FigureType::King, Color::White),
            ("h1", FigureType::Rook, Color::White),
            ("a1", FigureType::Rook, Color::White),
            ("e8", FigureType::King, Color::Black),
        ],
        Color::White,
    );
    assert_eq!(decompress_from("EG", &start), Err(ChessError::Unreachable(4, 6)));
    start.white_king_side = Disallowable::new(true);
    let (_, moves) = decompress_from("EG", &start).unwrap();
    assert_eq!(moves[0], MoveData::new_castling(square("e1"), square("h1")));
    assert_eq!(decompress_from("EC", &start).map(|r| r.1), Err(ChessError::Unreachable(4, 2)));
    start.white_queen_side = Disallowable::new(true);
    let (after, long) = decompress_from("EC", &start).unwrap();
    assert_eq!(long[0], MoveData::new_castling(square("e1"), square("a1")));
    assert_eq!(
        after[1].get_figure(square("d1")),
        Some(Figure { fig_type: FigureType::Rook, color: Color::White })
    );
    assert_eq!(
        after[1].get_figure(square("c1")),
        Some(Figure { fig_type: FigureType::King, color: Color::White })
    );
}

#[test]
fn compress_writes_two_symbols_a_move_and_three_for_a_promotion() {
    let moves = vec![
        Move::from_str("a2a4").unwrap(),
        Move::from_str("g8f6").unwrap(),
        Move::from_str("b7a8Q").unwrap(),
        Move::from_str("h8a1").unwrap(),
    ];
    assert_eq!(compress(&moves), "IY-tx4Q_A");
}

#[test]
fn a_legal_game_round_trips() {
    let texts = [
        "e2e4", "e7e5", "g1f3", "b8c6", "f1c4", "g8f6", "e1g1", "f6e4", "d2d4", "e5d4", "f1e1",
        "d7d5", "c4d5", "d8d5", "b1c3", "d5a5", "c3e4", "c8e6", "c2c4", "d4c3",
    ];
    let moves: Vec<Move> = texts.iter().map(|t| Move::from_str(t).unwrap()).collect();
    let code = compress(&moves);
    assert_eq!(code.chars().count(), 40);
    let (positions, made) = decompress(&code).unwrap();
    assert_eq!(made.len(), moves.len());
    assert_eq!(positions.len(), moves.len() + 1);
    let back: Vec<Move> = made.iter().map(|m| m.to_move()).collect();
    assert_eq!(back, moves);
    assert_eq!(compress(&back), code);
    assert!(matches!(made[6].move_type, MoveType::Castling(CastlingType::KingSide, _)));
    assert_eq!(made[7].figure_captured, Some(FigureType::Pawn));
    assert_eq!(made[19].move_type, MoveType::EnPassant);
    assert_eq!(
        positions[20].get_fen(),
        "r3kb1r/ppp2ppp/2n1b3/q7/4N3/2p2N2/PP3PPP/R1BQR1K1 w kq - 0 11"
    );
    let mut state = GameState::classic();
    for (i, mv) in moves.iter().enumerate() {
        let (_, next) = state.play(mv).unwrap();
        assert_eq!(next.get_fen(), positions[i + 1].get_fen());
        state = next;
    }
}

#[test]
fn a_character_outside_the_alphabet_is_named() {
    let err = decompress("IY!t").unwrap_err();
    assert_eq!(err, ChessError::BadSymbol('!'));
    assert_eq!(err.kind(), ErrorKind::IllegalFormat);
    assert_eq!(err.get_message("IY!t"), "illegal symbol: !");
    assert_eq!(decompress("=Y"), Err(ChessError::BadSymbol('=')));
    assert_eq!(decompress("I/"), Err(ChessError::BadSymbol('/')));
    assert_eq!(decompress("IY-t Yg"), Err(ChessError::BadSymbol(' ')));
    assert_eq!(decompress("IY-tYgxhgp2upx92x4+"), Err(ChessError::BadSymbol('+')));
    assert_eq!(decompress("IYé"), Err(ChessError::BadSymbol('é')));
}

#[test]
fn a_dangling_symbol_is_refused() {
    assert_eq!(decompress("I"), Err(ChessError::DanglingSymbol('I')));
    assert_eq!(decompress("IY-"), Err(ChessError::DanglingSymbol('-')));
    assert_eq!(decompress("IY-").unwrap_err().kind(), ErrorKind::IllegalFormat);
}

#[test]
fn promotion_symbol_must_be_one_of_four() {
    assert_eq!(
        decompress(&format!("{}x4A", EIGHT_MOVES)),
        Err(ChessError::BadPromotion('A'))
    );
    assert_eq!(
        decompress(&format!("{}x4N", EIGHT_MOVES)),
        Err(ChessError::BadPromotion('N'))
    );
    assert_eq!(
        decompress(&format!("{}x4q", EIGHT_MOVES)).unwrap_err().kind(),
        ErrorKind::IllegalFormat
    );
    assert_eq!(decompress(&format!("{}x4", EIGHT_MOVES)), Err(ChessError::MissingPromotion));
}

#[test]
fn moves_that_cannot_be_played_are_refused() {
    // a4 is empty
    assert_eq!(decompress("YY"), Err(ChessError::NoPieceToMove(24)));
    // b7 holds a pawn of the side that is not to move
    assert_eq!(decompress("xh"), Err(ChessError::NoPieceToMove(49)));
    // a2-a1: the rook of the same side stands there
    assert_eq!(decompress("IA"), Err(ChessError::Unreachable(8, 0)));
    // a2-a5
    assert_eq!(decompress("Ig"), Err(ChessError::Unreachable(8, 32)));
    // the rook a1 is shut in
    assert_eq!(decompress("AQ"), Err(ChessError::Unreachable(0, 16)));
    // a2-b3 takes nothing
    assert_eq!(decompress("IR"), Err(ChessError::Unreachable(8, 17)));
    assert_eq!(decompress("IA").unwrap_err().kind(), ErrorKind::IllegalMove);
    assert_eq!(decompress("YY").unwrap_err().kind(), ErrorKind::IllegalMove);
    // the first error wins, wherever a later one stands
    assert_eq!(decompress("IA!"), Err(ChessError::Unreachable(8, 0)));
}

#[test]
fn written_moves_are_checked_against_the_position() {
    let start = GameState::classic();
    let pawn = Move::from_str("e2e4").unwrap();
    let (made, next) = start.play(&pawn).unwrap();
    assert_eq!(made.move_type, MoveType::Normal);
    assert!(made.is_pawn_move);
    assert_eq!(next.en_passant_intercept_pos, Some(square("e3")));
    assert_eq!(next.turn_by, Color::Black);
    assert_eq!(start.turn_by, Color::White);
    assert_eq!(
        start.check_move(&Move::from_str("e2e4Q").unwrap()),
        Err(ChessError::UnexpectedPromotion('Q'))
    );
    assert_eq!(
        start.check_move(&Move::from_str("e2e4Q").unwrap()).unwrap_err().kind(),
        ErrorKind::IllegalMove
    );
    assert_eq!(
        start.check_move(&Move::from_str("e7e5").unwrap()),
        Err(ChessError::NoPieceToMove(52))
    );
    let late = state_with(
        &[
            ("b7", FigureType::Pawn, Color::White),
            ("e1", FigureType::King, Color::White),
        ],
        Color::White,
    );
    assert_eq!(
        late.check_move(&Move::from_str("b7b8").unwrap()),
        Err(ChessError::MissingPromotion)
    );
    assert!(late.is_playable(square("b7"), square("b8")));
    assert!(!late.is_playable(square("b7"), square("a8")));
    assert!(late.is_promotion_step(square("b7"), square("b8")));
    assert!(!late.is_promotion_step(square("e1"), square("e2")));
}

#[test]
fn counters_follow_the_moves() {
    let (positions, _) = decompress("GV-tVm").unwrap();
    // g1-f3, g8-f6, f3-g5
    assert_eq!(positions[1].half_move_clock, 1);
    assert_eq!(positions[1].full_move_no, 1);
    assert_eq!(positions[2].half_move_clock, 2);
    assert_eq!(positions[2].full_move_no, 2);
    assert_eq!(positions[3].half_move_clock, 3);
    assert_eq!(positions[3].full_move_no, 2);
    assert_eq!(
        positions[3].get_fen(),
        "rnbqkb1r/pppppppp/5n2/6N1/8/8/PPPPPPPP/RNBQKB1R b KQkq - 3 2"
    );
    let mut worn = GameState::classic();
    worn.half_move_clock = usize::MAX;
    worn.full_move_no = usize::MAX;
    worn.turn_by = Color::Black;
    let next = worn.apply(&MoveData::new(FromTo::from_code("g8f6"), None));
    assert_eq!(next.half_move_clock, usize::MAX);
    assert_eq!(next.full_move_no, usize::MAX);
}
