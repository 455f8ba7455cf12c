use chess::base::Color;
use chess::board::Board;
use chess::figure::{Figure, FigureType};
use chess::game::GameState;
use chess::position::Position;
use chess::reachable::get_positions_to_reach_target_from;

fn at(name: &str) -> Position {
    Position::from_str(name).unwrap()
}

fn board_with(pieces: &[(&str, FigureType, Color)]) -> Board {
    let mut board = Board::empty();
    for (name, fig_type, color) in pieces {
        board.set_figure(at(name), Some(Figure { fig_type: *fig_type, color: *color }));
    }
    board
}

fn origins(target: &str, color: Color, board: &Board, ep: Option<&str>) -> Vec<String> {
    let mut names: Vec<String> =
        get_positions_to_reach_target_from(at(target), color, board, ep.map(at))
            .iter()
            .map(|p| p.to_string())
            .collect();
    names.sort();
    names
}

#[test]
fn testing_for_get_positions_to_reach_target_from() {
    let board = Board::classic();
    let jumps = at("b1").reachable_knight_positions(Color::White, &board);
    assert_eq!(jumps.len(), 2);
    assert!(jumps.contains(&at("a3")));
    assert!(jumps.contains(&at("c3")));
    let found = get_positions_to_reach_target_from(at("c3"), Color::White, &board, None);
    assert_eq!(found.len(), 2);
    assert!(found.contains(&at("b1")));
    assert!(found.contains(&at("c2")));
    assert!(found.contains(&at("b2")) == false);
    assert!(found.contains(&at("d2")) == false);
}

#[test]
fn classic_board_first_moves() {
    let board = Board::classic();
    assert_eq!(origins("e4", Color::White, &board, None), vec!["e2"]);
    assert_eq!(origins("e3", Color::White, &board, None), vec!["e2"]);
    assert_eq!(origins("f3", Color::White, &board, None), vec!["f2", "g1"]);
    assert_eq!(origins("a3", Color::White, &board, None), vec!["a2", "b1"]);
    assert_eq!(origins("e5", Color::Black, &board, None), vec!["e7"]);
    assert_eq!(origins("f6", Color::Black, &board, None), vec!["f7", "g8"]);
    assert_eq!(origins("e5", Color::White, &board, None), Vec::<String>::new());
    assert_eq!(origins("e4", Color::Black, &board, None), Vec::<String>::new());
}

#[test]
fn classic_board_knight_target_counts_its_neighbours_once() {
    let board = Board::classic();
    // c3 is reached by the knight b1 and by the pawn c2; d2 and b2 only
    // take, and c3 is empty.
    let found = origins("c3", Color::White, &board, None);
    assert_eq!(found, vec!["b1", "c2"]);
}

#[test]
fn sliders_stop_at_the_first_piece() {
    let board = board_with(&[
        ("a4", FigureType::Rook, Color::White),
        ("c4", FigureType::Pawn, Color::Black),
        ("d8", FigureType::Queen, Color::White),
        ("d6", FigureType::Knight, Color::White),
        ("g4", FigureType::Rook, Color::White),
        ("h8", FigureType::Bishop, Color::White),
        ("a1", FigureType::Bishop, Color::White),
        ("b2", FigureType::Pawn, Color::White),
        ("g1", FigureType::Queen, Color::White),
        ("d1", FigureType::Rook, Color::Black),
    ]);
    // a4 is blocked by c4, d8 by d6, a1 by b2; d1 is the other side's.
    assert_eq!(origins("d4", Color::White, &board, None), vec!["g1", "g4", "h8"]);
    assert_eq!(origins("d4", Color::Black, &board, None), vec!["d1"]);
}

#[test]
fn rooks_do_not_move_diagonally_nor_bishops_straight() {
    let board = board_with(&[
        ("a1", FigureType::Rook, Color::White),
        ("d1", FigureType::Bishop, Color::White),
        ("a4", FigureType::Bishop, Color::White),
        ("g7", FigureType::Rook, Color::White),
    ]);
    assert_eq!(origins("d4", Color::White, &board, None), Vec::<String>::new());
}

#[test]
fn king_moves_one_step_only() {
    let near = board_with(&[("e5", FigureType::King, Color::White)]);
    assert_eq!(origins("e4", Color::White, &near, None), vec!["e5"]);
    assert_eq!(origins("d4", Color::White, &near, None), vec!["e5"]);
    assert_eq!(origins("f6", Color::White, &near, None), vec!["e5"]);
    assert_eq!(origins("e3", Color::White, &near, None), Vec::<String>::new());
    assert_eq!(origins("g7", Color::White, &near, None), Vec::<String>::new());
    assert_eq!(origins("g5", Color::White, &near, None), Vec::<String>::new());
    assert_eq!(origins("e5", Color::White, &near, None), Vec::<String>::new());
}

#[test]
fn rays_do_not_wrap_around_the_edge() {
    let board = board_with(&[
        ("a5", FigureType::Rook, Color::White),
        ("a3", FigureType::Bishop, Color::White),
        ("b2", FigureType::Knight, Color::White),
    ]);
    assert_eq!(origins("h4", Color::White, &board, None), Vec::<String>::new());
    assert_eq!(origins("h3", Color::White, &board, None), Vec::<String>::new());
    assert_eq!(origins("h1", Color::White, &board, None), Vec::<String>::new());
}

#[test]
fn knights_jump_over_pieces_and_only_own_knights_count() {
    let board = board_with(&[
        ("b1", FigureType::Knight, Color::White),
        ("f1", FigureType::Knight, Color::White),
        ("b3", FigureType::Knight, Color::Black),
        ("f3", FigureType::Bishop, Color::White),
        ("c2", FigureType::Pawn, Color::White),
        ("e2", FigureType::Pawn, Color::White),
    ]);
    assert_eq!(origins("d2", Color::White, &board, None), vec!["b1", "f1"]);
    assert_eq!(origins("d2", Color::Black, &board, None), vec!["b3"]);
}

#[test]
fn knight_destinations_leave_out_own_pieces() {
    let board = board_with(&[
        ("d4", FigureType::Knight, Color::White),
        ("e6", FigureType::Pawn, Color::White),
        ("c6", FigureType::Pawn, Color::Black),
    ]);
    let mut names: Vec<String> = at("d4")
        .reachable_knight_positions(Color::White, &board)
        .iter()
        .map(|p| p.to_string())
        .collect();
    names.sort();
    assert_eq!(names, vec!["b3", "b5", "c2", "c6", "e2", "f3", "f5"]);
    let corner = at("a1").reachable_knight_positions(Color::White, &board);
    assert_eq!(corner.len(), 2);
}

#[test]
fn pawns_push_onto_empty_squares_only() {
    let board = board_with(&[
        ("e2", FigureType::Pawn, Color::White),
        ("d3", FigureType::Pawn, Color::White),
        ("e7", FigureType::Pawn, Color::Black),
        ("d5", FigureType::Knight, Color::Black),
    ]);
    assert_eq!(origins("e3", Color::White, &board, None), vec!["e2"]);
    assert_eq!(origins("e4", Color::White, &board, None), vec!["e2"]);
    assert_eq!(origins("d4", Color::White, &board, None), vec!["d3"]);
    // d5 is occupied: the pawn d3 is two ranks away and pawns on c4/e4 are absent
    assert_eq!(origins("d5", Color::White, &board, None), Vec::<String>::new());
    assert_eq!(origins("e6", Color::Black, &board, None), vec!["e7"]);
    assert_eq!(origins("e5", Color::Black, &board, None), vec!["e7"]);
}

#[test]
fn double_step_needs_home_rank_and_a_free_way() {
    let blocked = board_with(&[
        ("e2", FigureType::Pawn, Color::White),
        ("e3", FigureType::Knight, Color::Black),
    ]);
    assert_eq!(origins("e4", Color::White, &blocked, None), Vec::<String>::new());
    let advanced = board_with(&[("e3", FigureType::Pawn, Color::White)]);
    assert_eq!(origins("e5", Color::White, &advanced, None), Vec::<String>::new());
    assert_eq!(origins("e4", Color::White, &advanced, None), vec!["e3"]);
    let black = board_with(&[("c7", FigureType::Pawn, Color::Black)]);
    assert_eq!(origins("c5", Color::Black, &black, None), vec!["c7"]);
    assert_eq!(origins("c4", Color::Black, &black, None), Vec::<String>::new());
}

#[test]
fn pawns_take_diagonally_onto_occupied_squares() {
    let board = board_with(&[
        ("c4", FigureType::Pawn, Color::White),
        ("e4", FigureType::Pawn, Color::White),
        ("d4", FigureType::Pawn, Color::White),
        ("d5", FigureType::Knight, Color::Black),
        ("c6", FigureType::Pawn, Color::Black),
        ("e6", FigureType::Pawn, Color::Black),
    ]);
    assert_eq!(origins("d5", Color::White, &board, None), vec!["c4", "e4"]);
    assert_eq!(origins("d5", Color::Black, &board, None), vec!["c6", "e6"]);
    // an empty square is no target for a capture
    assert_eq!(origins("d6", Color::White, &board, None), Vec::<String>::new());
}

#[test]
fn en_passant_square_is_reached_diagonally() {
    let board = board_with(&[
        ("a5", FigureType::Pawn, Color::White),
        ("c5", FigureType::Pawn, Color::White),
        ("b5", FigureType::Pawn, Color::Black),
    ]);
    assert_eq!(origins("b6", Color::White, &board, Some("b6")), vec!["a5", "c5"]);
    assert_eq!(origins("b6", Color::White, &board, None), Vec::<String>::new());
    assert_eq!(origins("b6", Color::White, &board, Some("c6")), Vec::<String>::new());
}

#[test]
fn pawns_never_come_from_their_own_back_rank() {
    let white = board_with(&[("e1", FigureType::Pawn, Color::White)]);
    assert_eq!(origins("e2", Color::White, &white, None), Vec::<String>::new());
    let black = board_with(&[("e8", FigureType::Pawn, Color::Black)]);
    assert_eq!(origins("e7", Color::Black, &black, None), Vec::<String>::new());
    let second = board_with(&[("e2", FigureType::Pawn, Color::White)]);
    assert_eq!(origins("e3", Color::White, &second, None), vec!["e2"]);
}

#[test]
fn origins_agree_with_moving_forward_on_a_busy_board() {
    // For every target, each origin found holds a piece of the color asked
    // for, and no square is named twice.
    let state = GameState::classic();
    for color in [Color::White, Color::Black] {
        for t in 0..64 {
            let target = Position::from_index(t).unwrap();
            let found = get_positions_to_reach_target_from(target, color, &state.board, None);
            for (i, p) in found.iter().enumerate() {
                assert_eq!(state.board.get_figure(*p).map(|f| f.color), Some(color));
                assert!(!found[i + 1..].contains(p));
                assert_ne!(*p, target);
            }
        }
    }
}
