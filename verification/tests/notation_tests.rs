use chess::a_move::{FromTo, Move, MoveData, PromotionType};
use chess::base::{Color, Disallowable};
use chess::board::Board;
use chess::errors::{ChessError, ErrorKind};
use chess::figure::{Figure, FigureType};
use chess::game::GameState;
use chess::notation::{
    append_figure_icon_to, append_promotion_icon_to, to_move_notation, OriginStatus,
};
use chess::position::Position;
use chess::record::{assemble_game, decode_moves};

fn place(name: &str) -> Position {
    Position::from_str(name).unwrap()
}

fn position_with(pieces: &[(&str, FigureType, Color)], turn_by: Color) -> GameState {
    let mut board = Board::empty();
    for (name, fig_type, color) in pieces {
        board.set_figure(place(name), Some(Figure { fig_type: *fig_type, color: *color }));
    }
    GameState {
        board,
        turn_by,
        en_passant_intercept_pos: None,
        white_king_side: Disallowable::new(false),
        white_queen_side: Disallowable::new(false),
        black_king_side: Disallowable::new(false),
        black_queen_side: Disallowable::new(false),
        half_move_clock: 0,
        full_move_no: 1,
    }
}

fn rendered(state: &GameState, text: &str) -> String {
    let made = state.check_move(&Move::from_str(text).unwrap()).unwrap();
    to_move_notation(&made, state)
}

#[test]
fn game_record_of_the_opening() {
    let game = decode_moves("IY-tYgxhgp2upx92x4Q8-").unwrap();
    assert_eq!(
        game.vec_of_moves,
        vec!["a4", "Nf6", "a5", "b5", "axb6", "g6", "b7", "Bg7", "bxa8=Q", "O-O"]
    );
    assert_eq!(game.vec_of_fen.len(), game.vec_of_moves.len() + 1);
    assert_eq!(
        game.vec_of_fen[0],
        "rnbqkbnr/pppppppp/8/8/8/8/PPPPPPPP/RNBQKBNR w KQkq - 0 1"
    );
    assert_eq!(
        game.vec_of_fen[4],
        "rnbqkb1r/p1pppppp/5n2/Pp6/8/8/1PPPPPPP/RNBQKBNR w KQkq b6 0 3"
    );
    assert_eq!(
        game.vec_of_fen[5],
        "rnbqkb1r/p1pppppp/1P3n2/8/8/8/1PPPPPPP/RNBQKBNR b KQkq - 0 3"
    );
    assert_eq!(
        game.vec_of_fen[9],
        "Qnbqk2r/p1ppppbp/5np1/8/8/8/1PPPPPPP/RNBQKBNR b KQk - 0 5"
    );
    assert_eq!(
        game.vec_of_fen[10],
        "Qnbq1rk1/p1ppppbp/5np1/8/8/8/1PPPPPPP/RNBQKBNR w KQ - 1 6"
    );
}

#[test]
fn game_record_of_a_king_pawn_opening() {
    let game = decode_moves("Mc0kGV").unwrap();
    assert_eq!(game.vec_of_moves, vec!["e4", "e5", "Nf3"]);
    assert_eq!(
        game.vec_of_fen,
        vec![
            "rnbqkbnr/pppppppp/8/8/8/8/PPPPPPPP/RNBQKBNR w KQkq - 0 1",
            "rnbqkbnr/pppppppp/8/8/4P3/8/PPPP1PPP/RNBQKBNR b KQkq e3 0 1",
            "rnbqkbnr/pppp1ppp/8/4p3/4P3/8/PPPP1PPP/RNBQKBNR w KQkq e6 0 2",
            "rnbqkbnr/pppp1ppp/8/4p3/4P3/5N2/PPPP1PPP/RNBQKB1R b KQkq - 1 2",
        ]
    );
}

#[test]
fn record_has_one_position_more_than_moves() {
    for code in ["", "IY", "IY-t", "IY-tYgxhgp2upx92", "IY-tYgxhgp2upx92x4K"] {
        let game = decode_moves(code).unwrap();
        assert_eq!(game.vec_of_fen.len(), game.vec_of_moves.len() + 1);
    }
}

#[test]
fn record_refuses_what_the_code_refuses() {
    assert_eq!(decode_moves("IY!t").unwrap_err(), ChessError::BadSymbol('!'));
    assert_eq!(decode_moves("IY!t").unwrap_err().kind(), ErrorKind::IllegalFormat);
    assert_eq!(decode_moves("I").unwrap_err(), ChessError::DanglingSymbol('I'));
    assert_eq!(decode_moves("IA").unwrap_err(), ChessError::Unreachable(8, 0));
}

#[test]
fn assembling_checks_the_counts() {
    let start = GameState::classic();
    let mv = MoveData::new(FromTo::from_code("g1f3"), None);
    let next = start.apply(&mv);
    let game = assemble_game(&vec![start, next], &vec![mv]).unwrap();
    assert_eq!(game.vec_of_moves, vec!["Nf3"]);
    assert_eq!(game.vec_of_fen.len(), 2);
    assert_eq!(
        assemble_game(&vec![start], &vec![mv]).unwrap_err(),
        ChessError::CountMismatch(1, 1)
    );
    assert_eq!(
        assemble_game(&vec![], &vec![]).unwrap_err(),
        ChessError::CountMismatch(0, 0)
    );
    assert_eq!(
        assemble_game(&vec![start, next, next], &vec![mv]).unwrap_err().kind(),
        ErrorKind::IllegalMove
    );
}

#[test]
fn pawn_promotion_with_capture_renders() {
    let state = position_with(
        &[
            ("b7", FigureType::Pawn, Color::White),
            ("a8", FigureType::Rook, Color::Black),
            ("e1", FigureType::King, Color::White),
            ("e8", FigureType::King, Color::Black),
        ],
        Color::White,
    );
    let made = state.check_move(&Move::from_str("b7a8Q").unwrap()).unwrap();
    assert_eq!(made.figure_captured, Some(FigureType::Rook));
    assert_eq!(to_move_notation(&made, &state), "bxa8=Q");
    assert_eq!(rendered(&state, "b7b8R"), "b8=R");
    assert_eq!(rendered(&state, "b7a8K"), "bxa8=N");
    assert_eq!(rendered(&state, "b7b8B"), "b8=B");
}

#[test]
fn a_lone_piece_shows_no_origin() {
    let state = position_with(
        &[
            ("b1", FigureType::Knight, Color::White),
            ("e1", FigureType::King, Color::White),
            ("a1", FigureType::Rook, Color::White),
            ("c4", FigureType::Bishop, Color::White),
            ("d5", FigureType::Pawn, Color::Black),
        ],
        Color::White,
    );
    assert_eq!(rendered(&state, "b1d2"), "Nd2");
    assert_eq!(rendered(&state, "e1e2"), "Ke2");
    assert_eq!(rendered(&state, "a1a7"), "Ra7");
    assert_eq!(rendered(&state, "c4d5"), "Bxd5");
    assert_eq!(state.origin_status(place("b1"), place("d2")), OriginStatus::Unambiguous);
}

#[test]
fn two_knights_are_told_apart() {
    let by_file = position_with(
        &[
            ("b1", FigureType::Knight, Color::White),
            ("f1", FigureType::Knight, Color::White),
        ],
        Color::White,
    );
    assert_eq!(rendered(&by_file, "b1d2"), "Nbd2");
    assert_eq!(rendered(&by_file, "f1d2"), "Nfd2");
    assert_eq!(
        by_file.origin_status(place("b1"), place("d2")),
        OriginStatus::ColumnIsAmbiguous
    );
    let by_rank = position_with(
        &[
            ("b1", FigureType::Knight, Color::White),
            ("b3", FigureType::Knight, Color::White),
        ],
        Color::White,
    );
    assert_eq!(rendered(&by_rank, "b1d2"), "N1d2");
    assert_eq!(rendered(&by_rank, "b3d2"), "N3d2");
    assert_eq!(
        by_rank.origin_status(place("b3"), place("d2")),
        OriginStatus::RowIsAmbiguous
    );
    let by_both = position_with(
        &[
            ("b1", FigureType::Knight, Color::White),
            ("b3", FigureType::Knight, Color::White),
            ("f1", FigureType::Knight, Color::White),
        ],
        Color::White,
    );
    assert_eq!(rendered(&by_both, "b1d2"), "Nb1d2");
    assert_eq!(rendered(&by_both, "b3d2"), "N3d2");
    assert_eq!(rendered(&by_both, "f1d2"), "Nfd2");
    assert_eq!(
        by_both.origin_status(place("b1"), place("d2")),
        OriginStatus::ColumnAndRowAreAmbiguous
    );
}

#[test]
fn rivals_must_be_of_the_same_kind_and_color() {
    let state = position_with(
        &[
            ("a1", FigureType::Rook, Color::White),
            ("h4", FigureType::Queen, Color::White),
            ("a8", FigureType::Rook, Color::Black),
            ("d4", FigureType::Rook, Color::White),
            ("b4", FigureType::Pawn, Color::Black),
        ],
        Color::White,
    );
    // the queen h4 and the black rook a8 are no rivals; the rook d4 is shut off by b4
    assert_eq!(rendered(&state, "a1a4"), "Ra4");
    assert_eq!(rendered(&state, "d4b4"), "Rxb4");
    let open = position_with(
        &[
            ("a1", FigureType::Rook, Color::White),
            ("d4", FigureType::Rook, Color::White),
        ],
        Color::White,
    );
    assert_eq!(rendered(&open, "a1a4"), "Raa4");
    assert_eq!(rendered(&open, "d4a4"), "Rda4");
}

#[test]
fn two_pawns_that_take_show_their_files() {
    let state = position_with(
        &[
            ("c4", FigureType::Pawn, Color::White),
            ("e4", FigureType::Pawn, Color::White),
            ("d5", FigureType::Pawn, Color::Black),
        ],
        Color::White,
    );
    assert_eq!(rendered(&state, "c4d5"), "cxd5");
    assert_eq!(rendered(&state, "e4d5"), "exd5");
    assert_eq!(rendered(&state, "c4c5"), "c5");
}

#[test]
fn en_passant_renders_as_a_capture() {
    let mut state = position_with(
        &[
            ("a5", FigureType::Pawn, Color::White),
            ("b5", FigureType::Pawn, Color::Black),
        ],
        Color::White,
    );
    state.en_passant_intercept_pos = Some(place("b6"));
    assert_eq!(rendered(&state, "a5b6"), "axb6");
    let after = state.play(&Move::from_str("a5b6").unwrap()).unwrap().1;
    assert_eq!(after.get_figure(place("b5")), None);
    assert_eq!(
        after.get_figure(place("b6")),
        Some(Figure { fig_type: FigureType::Pawn, color: Color::White })
    );
}

#[test]
fn castling_renders_as_a_fixed_text() {
    let state = GameState::classic();
    let short = MoveData::new_castling(place("e1"), place("h1"));
    let long = MoveData::new_castling(place("e8"), place("a8"));
    assert_eq!(to_move_notation(&short, &state), "O-O");
    assert_eq!(to_move_notation(&long, &state), "O-O-O");
}

#[test]
fn a_move_from_an_empty_square_still_renders() {
    let state = position_with(&[], Color::White);
    let mv = MoveData::new(FromTo::from_code("e2e4"), None);
    assert_eq!(to_move_notation(&mv, &state), "e4");
    let taking = MoveData::new(FromTo::from_code("e2e4"), Some(FigureType::Pawn));
    assert_eq!(to_move_notation(&taking, &state), "xe4");
}

#[test]
fn icons_are_letters() {
    let mut text = String::from("1. ");
    append_figure_icon_to(&mut text, &FigureType::Pawn);
    assert_eq!(text, "1. ");
    append_figure_icon_to(&mut text, &FigureType::Knight);
    assert_eq!(text, "1. N");
    append_figure_icon_to(&mut text, &FigureType::King);
    append_figure_icon_to(&mut text, &FigureType::Queen);
    append_figure_icon_to(&mut text, &FigureType::Rook);
    append_figure_icon_to(&mut text, &FigureType::Bishop);
    assert_eq!(text, "1. NKQRB");
    append_promotion_icon_to(&mut text, &PromotionType::Queen);
    append_promotion_icon_to(&mut text, &PromotionType::Knight);
    append_promotion_icon_to(&mut text, &PromotionType::Rook);
    append_promotion_icon_to(&mut text, &PromotionType::Bishop);
    assert_eq!(text, "1. NKQRB=Q=N=R=B");
}
