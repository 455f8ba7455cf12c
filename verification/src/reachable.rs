//! From which squares a side's pieces can move to a given square.
//!
//! The question is answered without regard to check: a piece that is pinned,
//! or a king that would step into an attack, still counts.

use vstd::prelude::*;
use crate::base::Color;
use crate::board::Board;
use crate::direction::{Direction, DIAGONAL_DIRECTIONS, STRAIGHT_DIRECTIONS};
use crate::figure::{Figure, FigureType};
use crate::knight::knight_destination;
use crate::geometry::{
    abs, bishop_line, distance, heading, knight_jump, lemma_coordinates, lemma_heading_ray,
    lemma_ray_geometry, lemma_ray_is_segment, lemma_segment_is_ray, lemma_square_of_coordinates,
    on_segment, ray_on_board, ray_square, rook_line,
};
use crate::position::{col_of, is_square, opt_index, row_of, square_at, stepped, Position};

verus! {

/// The indices of a list of squares.
pub open spec fn indices(ps: Seq<Position>) -> Seq<int> {
    Seq::new(ps.len(), |i: int| ps[i]@)
}

/// Whether every square strictly between `s` and `t`, on the line that joins
/// them, is empty.
pub open spec fn clear_between(squares: Seq<Option<Figure>>, s: int, t: int) -> bool {
    forall|m: int| is_square(m) && #[trigger] on_segment(s, m, t) ==> squares[m] is None
}

/// The change of rank when a pawn of the given side advances one square.
pub open spec fn forward(color: Color) -> int {
    match color {
        Color::White => 1,
        Color::Black => -1,
    }
}

/// The rank on which the pawns of the given side start.
pub open spec fn pawn_home_row(color: Color) -> int {
    match color {
        Color::White => 1,
        Color::Black => 6,
    }
}

/// Whether a pawn of the given side on `s` can move to `t`: one square
/// ahead onto an empty square; two squares ahead from its home rank over an
/// empty square onto an empty square; or one square diagonally ahead onto
/// an occupied square or onto the en-passant square `ep`. A pawn on the back
/// rank of its own side, where no pawn can stand, moves nowhere.
pub open spec fn pawn_reaches(
    squares: Seq<Option<Figure>>,
    ep: Option<int>,
    color: Color,
    s: int,
    t: int,
) -> bool {
    let dc = col_of(t) - col_of(s);
    let dr = row_of(t) - row_of(s);
    let f = forward(color);
    &&& match color {
        Color::White => row_of(s) >= 1,
        Color::Black => row_of(s) <= 6,
    }
    &&& {
        ||| dc == 0 && dr == f && squares[t] is None
        ||| dc == 0 && dr == 2 * f && row_of(s) == pawn_home_row(color) && squares[t] is None
            && squares[square_at(col_of(s), row_of(s) + f)] is None
        ||| abs(dc) == 1 && dr == f && (squares[t] is Some || ep == Some(t))
    }
}

/// Whether the piece `figure`, standing on `s`, can move to `t` by the rules
/// of its kind: rook, bishop and queen along a clear line, the king one
/// square in any direction, the knight by its jump, the pawn as
/// `pawn_reaches` says. What stands on `t` is of no account but for the pawn.
pub open spec fn piece_reaches(
    squares: Seq<Option<Figure>>,
    ep: Option<int>,
    figure: Figure,
    s: int,
    t: int,
) -> bool {
    match figure.fig_type {
        FigureType::Pawn => pawn_reaches(squares, ep, figure.color, s, t),
        FigureType::Knight => knight_jump(s, t),
        FigureType::King => distance(s, t) == 1,
        FigureType::Rook => rook_line(s, t) && clear_between(squares, s, t),
        FigureType::Bishop => bishop_line(s, t) && clear_between(squares, s, t),
        FigureType::Queen => (rook_line(s, t) || bishop_line(s, t)) && clear_between(
            squares,
            s,
            t,
        ),
    }
}

/// Whether a piece of side `color` stands on `s` and can move from there to
/// `t`.
pub open spec fn can_reach(
    squares: Seq<Option<Figure>>,
    ep: Option<int>,
    color: Color,
    s: int,
    t: int,
) -> bool {
    &&& is_square(s)
    &&& is_square(t)
    &&& squares[s] is Some
    &&& squares[s]->0.color == color
    &&& piece_reaches(squares, ep, squares[s]->0, s, t)
}

/// Whether the kind moves along lines or, for the king, one step along one.
pub open spec fn is_slider(kind: FigureType) -> bool {
    kind == FigureType::Rook || kind == FigureType::Bishop || kind == FigureType::Queen || kind
        == FigureType::King
}

/// Whether the `n`th square of the ray from `t` in direction `e` is the
/// first occupied one.
pub open spec fn first_hit(squares: Seq<Option<Figure>>, t: int, e: Direction, n: int) -> bool {
    &&& n >= 1
    &&& ray_on_board(t, e, n)
    &&& squares[ray_square(t, e, n)] is Some
    &&& forall|j: int| 0 < j < n ==> squares[#[trigger] ray_square(t, e, j)] is None
}

/// A ray has at most one first occupied square.
proof fn lemma_first_hit_unique(squares: Seq<Option<Figure>>, t: int, e: Direction, n: int, m: int)
    requires
        first_hit(squares, t, e, n),
        first_hit(squares, t, e, m),
    ensures
        n == m,
{
    if n < m {
        assert(squares[ray_square(t, e, n)] is None);
    }
    if m < n {
        assert(squares[ray_square(t, e, m)] is None);
    }
}

/// A rook, bishop, queen or king that can move to `t` is the first piece
/// met when walking from `t` towards it.
proof fn lemma_slider_is_first_hit(
    squares: Seq<Option<Figure>>,
    ep: Option<int>,
    color: Color,
    s: int,
    t: int,
)
    requires
        squares.len() == 64,
        can_reach(squares, ep, color, s, t),
        is_slider(squares[s]->0.fig_type),
    ensures
        rook_line(s, t) || bishop_line(s, t),
        first_hit(squares, t, heading(t, s), distance(s, t)),
        ray_square(t, heading(t, s), distance(s, t)) == s,
{
    let kind = squares[s]->0.fig_type;
    lemma_square_of_coordinates(s);
    lemma_square_of_coordinates(t);
    assert(rook_line(s, t) || bishop_line(s, t));
    lemma_heading_ray(t, s);
    let e = heading(t, s);
    let n = distance(s, t);
    assert forall|j: int| 0 < j < n implies squares[#[trigger] ray_square(t, e, j)] is None by {
        lemma_ray_is_segment(t, e, n, j);
        assert(kind != FigureType::King);
        assert(clear_between(squares, s, t));
    }
}

struct FoundFigure {
    figure_type: FigureType,
    position: Position,
    distance: usize,
}

/// Walks from `start` in `direction` to the first occupied square and
/// reports the piece there if it belongs to `active_color`.
fn find_first_active_figure_on(
    start: Position,
    direction: Direction,
    active_color: Color,
    board: &Board,
) -> (r: Option<FoundFigure>)
    ensures
        match r {
            Some(found) => {
                &&& first_hit(board@, start@, direction, found.distance as int)
                &&& found.position@ == ray_square(start@, direction, found.distance as int)
                &&& board@[found.position@] == Some(
                    Figure { fig_type: found.figure_type, color: active_color },
                )
            },
            None => forall|n: int| #[trigger]
                first_hit(board@, start@, direction, n) ==> board@[ray_square(
                    start@,
                    direction,
                    n,
                )]->0.color != active_color,
        },
{
    let ghost t = start@;
    let ghost e = direction;
    let ghost squares = board@;
    let mut pos = start;
    let mut dist: usize = 1;
    // read for its bound: every square has an index below 64
    let start_index = start.index();
    proof {
        lemma_square_of_coordinates(t);
    }
    loop
        invariant
            is_square(t),
            t == start@,
            e == direction,
            squares == board@,
            1 <= dist <= 8,
            ray_on_board(t, e, dist - 1),
            pos@ == ray_square(t, e, dist - 1),
            forall|j: int| 0 < j < dist ==> squares[#[trigger] ray_square(t, e, j)] is None,
        decreases 8 - dist,
    {
        proof {
            lemma_coordinates(col_of(t) + e.run_x(dist - 1), row_of(t) + e.run_y(dist - 1));
            if ray_on_board(t, e, dist as int) {
                lemma_coordinates(col_of(t) + e.run_x(dist as int), row_of(t) + e.run_y(dist as int));
            }
            assert(stepped(pos@, e) == if ray_on_board(t, e, dist as int) {
                Some(ray_square(t, e, dist as int))
            } else {
                None
            });
        }
        match pos.step(direction) {
            Some(next) => {
                if let Some(figure) = board.get_figure(next) {
                    assert(first_hit(squares, t, e, dist as int));
                    if figure.color == active_color {
                        return Some(
                            FoundFigure {
                                figure_type: figure.fig_type,
                                position: next,
                                distance: dist,
                            },
                        );
                    } else {
                        proof {
                            assert forall|n: int| #[trigger]
                                first_hit(squares, t, e, n) implies squares[ray_square(
                                t,
                                e,
                                n,
                            )]->0.color != active_color by {
                                lemma_first_hit_unique(squares, t, e, n, dist as int);
                            }
                        }
                        return None;
                    }
                }
                pos = next;
                dist = dist + 1;
            },
            None => {
                proof {
                    assert forall|n: int| #[trigger]
                        first_hit(squares, t, e, n) implies squares[ray_square(
                        t,
                        e,
                        n,
                    )]->0.color != active_color by {
                        if n >= dist {
                            lemma_ray_geometry(t, e, n);
                            assert(ray_on_board(t, e, dist as int));
                        } else {
                            assert(squares[ray_square(t, e, n)] is None);
                        }
                    }
                }
                return None;
            },
        }
    }
}

/// Whether a rook, bishop, queen or king of side `color` stands on `s` and
/// can move to `t`.
pub open spec fn slider_origin(squares: Seq<Option<Figure>>, color: Color, s: int, t: int) -> bool {
    can_reach(squares, None, color, s, t) && is_slider(squares[s]->0.fig_type)
}

/// Pushing a square onto a list pushes its index onto the list's indices.
proof fn lemma_indices_push(ps: Seq<Position>, p: Position)
    ensures
        indices(ps.push(p)) == indices(ps).push(p@),
{
    assert(indices(ps.push(p)) =~= indices(ps).push(p@));
}

/// The squares from which a rook, bishop, queen or king of `active_color`
/// can move to `target`.
fn slider_origins(target: Position, active_color: Color, board: &Board) -> (result: Vec<Position>)
    ensures
        forall|s: int|
            indices(result@).contains(s) <==> slider_origin(board@, active_color, s, target@),
        indices(result@).no_duplicates(),
{
    let ghost t = target@;
    let ghost squares = board@;
    // read for its bound: every square has an index below 64
    let target_index = target.index();
    let mut result: Vec<Position> = Vec::with_capacity(4);
    let mut i: usize = 0;
    proof {
        board.lemma_len();
    }
    while i < 8
        invariant
            0 <= i <= 8,
            is_square(t),
            t == target@,
            squares == board@,
            squares.len() == 64,
            forall|k: int|
                0 <= k < result@.len() ==> slider_origin(squares, active_color, #[trigger] indices(result@)[k], t)
                    && heading(t, indices(result@)[k]).rank() < i,
            forall|s: int|
                slider_origin(squares, active_color, s, t) && heading(t, s).rank() < i
                    ==> #[trigger] indices(result@).contains(s),
            indices(result@).no_duplicates(),
        decreases 8 - i,
    {
        let straight = i < 4;
        let direction = if straight {
            STRAIGHT_DIRECTIONS[i]
        } else {
            DIAGONAL_DIRECTIONS[i - 4]
        };
        assert(direction.rank() == i);
        assert(direction.is_straight() == straight);
        let ghost before = result@;
        let found = find_first_active_figure_on(target, direction, active_color, board);
        let mut fits = false;
        if let Some(hit) = &found {
            fits = match hit.figure_type {
                FigureType::Rook => straight,
                FigureType::Bishop => !straight,
                FigureType::Queen => true,
                FigureType::King => hit.distance == 1,
                _ => false,
            };
            if fits {
                result.push(hit.position);
                proof {
                    let n = hit.distance as int;
                    let s = hit.position@;
                    lemma_indices_push(before, hit.position);
                    lemma_ray_geometry(t, direction, n);
                    assert forall|m: int| is_square(m) && #[trigger] on_segment(s, m, t) implies squares[m] is None by {
                        lemma_segment_is_ray(t, direction, n, m);
                    }
                    assert(clear_between(squares, s, t));
                    assert(slider_origin(squares, active_color, s, t));
                    assert(heading(t, s).rank() == i);
                }
            }
        }
        proof {
            assert forall|s: int|
                slider_origin(squares, active_color, s, t) && heading(t, s).rank() < i + 1 implies #[trigger] indices(
                result@,
            ).contains(s) by {
                if heading(t, s).rank() < i {
                    assert(indices(before).contains(s));
                    let k = choose|k: int| 0 <= k < indices(before).len() && indices(before)[k] == s;
                    assert(indices(result@)[k] == s);
                } else {
                    lemma_slider_is_first_hit(squares, None, active_color, s, t);
                    let n = distance(s, t);
                    assert(heading(t, s) == direction);
                    assert(first_hit(squares, t, direction, n));
                    lemma_ray_geometry(t, direction, n);
                    match found {
                        None => {
                            assert(false);
                        },
                        Some(hit) => {
                            lemma_first_hit_unique(squares, t, direction, n, hit.distance as int);
                            assert(s == hit.position@);
                            assert(fits);
                            assert(indices(result@)[before.len() as int] == s);
                        },
                    }
                }
            }
        }
        i = i + 1;
    }
    proof {
        assert forall|s: int| indices(result@).contains(s) implies slider_origin(
            squares,
            active_color,
            s,
            t,
        ) by {
            let k = choose|k: int| 0 <= k < indices(result@).len() && indices(result@)[k] == s;
            assert(slider_origin(squares, active_color, indices(result@)[k], t));
        }
    }
    result
}

/// Whether a knight of side `color` stands on `s` and can jump to `t`.
pub open spec fn knight_origin(squares: Seq<Option<Figure>>, color: Color, s: int, t: int) -> bool {
    can_reach(squares, None, color, s, t) && squares[s]->0.fig_type == FigureType::Knight
}

/// The squares from which a knight of `active_color` can jump to `target`.
fn knight_origins(target: Position, active_color: Color, board: &Board) -> (result: Vec<Position>)
    ensures
        forall|s: int|
            indices(result@).contains(s) <==> knight_origin(board@, active_color, s, target@),
        indices(result@).no_duplicates(),
{
    let ghost t = target@;
    let ghost squares = board@;
    // read for its bound: every square has an index below 64
    let target_index = target.index();
    let candidates = target.reachable_knight_positions(active_color.toggle(), board);
    let ghost cand = indices(candidates@);
    let mut result: Vec<Position> = Vec::new();
    let mut j: usize = 0;
    while j < candidates.len()
        invariant
            0 <= j <= candidates.len(),
            is_square(t),
            t == target@,
            squares == board@,
            cand == indices(candidates@),
            cand.no_duplicates(),
            forall|p: int|
                cand.contains(p) <==> knight_destination(squares, active_color.opponent(), t, p),
            forall|k: int|
                0 <= k < result@.len() ==> {
                    let s = #[trigger] indices(result@)[k];
                    knight_origin(squares, active_color, s, t) && exists|m: int|
                        0 <= m < j && cand[m] == s
                },
            forall|m: int|
                0 <= m < j && knight_origin(squares, active_color, #[trigger] cand[m], t)
                    ==> indices(result@).contains(cand[m]),
            indices(result@).no_duplicates(),
        decreases candidates.len() - j,
    {
        let pos_from = candidates[j];
        let ghost before = result@;
        proof {
            assert(cand[j as int] == pos_from@);
            assert(cand.contains(pos_from@));
        }
        if let Some(figure) = board.get_figure(pos_from) {
            if figure.fig_type == FigureType::Knight {
                result.push(pos_from);
                proof {
                    lemma_indices_push(before, pos_from);
                    assert(knight_origin(squares, active_color, pos_from@, t));
                }
            }
        }
        proof {
            assert forall|k: int| 0 <= k < result@.len() implies {
                let s = #[trigger] indices(result@)[k];
                knight_origin(squares, active_color, s, t) && exists|m: int|
                    0 <= m < j + 1 && cand[m] == s
            } by {
                let s = indices(result@)[k];
                if k < before.len() {
                    assert(s == indices(before)[k]);
                    let m = choose|m: int| 0 <= m < j && cand[m] == s;
                    assert(0 <= m < j + 1 && cand[m] == s);
                } else {
                    assert(cand[j as int] == s);
                }
            }
            assert forall|m: int|
                0 <= m < j + 1 && knight_origin(
                    squares,
                    active_color,
                    #[trigger] cand[m],
                    t,
                ) implies indices(result@).contains(cand[m]) by {
                if m < j {
                    assert(indices(before).contains(cand[m]));
                    let k = choose|k: int|
                        0 <= k < indices(before).len() && indices(before)[k] == cand[m];
                    assert(indices(result@)[k] == cand[m]);
                } else {
                    assert(indices(result@)[before.len() as int] == cand[m]);
                }
            }
        }
        j = j + 1;
    }
    proof {
        assert forall|s: int| indices(result@).contains(s) <==> knight_origin(
            squares,
            active_color,
            s,
            t,
        ) by {
            if indices(result@).contains(s) {
                let k = choose|k: int| 0 <= k < indices(result@).len() && indices(result@)[k] == s;
                assert(knight_origin(squares, active_color, indices(result@)[k], t));
            }
            if knight_origin(squares, active_color, s, t) {
                assert(knight_destination(squares, active_color.opponent(), t, s));
                assert(cand.contains(s));
                let m = choose|m: int| 0 <= m < cand.len() && cand[m] == s;
                assert(knight_origin(squares, active_color, cand[m], t));
            }
        }
    }
    result
}

/// Whether a pawn of side `color` stands on `s` and can move to `t`.
pub open spec fn pawn_origin(
    squares: Seq<Option<Figure>>,
    ep: Option<int>,
    color: Color,
    s: int,
    t: int,
) -> bool {
    can_reach(squares, ep, color, s, t) && squares[s]->0.fig_type == FigureType::Pawn
}

/// Whether `pos` is a square with a pawn of `active_color` on it.
fn contains_active_pawn(pos: Option<Position>, active_color: Color, board: &Board) -> (b: bool)
    ensures
        b == (pos is Some && board@[pos->0@] == Some(
            Figure { fig_type: FigureType::Pawn, color: active_color },
        )),
        pos is Some ==> is_square(pos->0@),
{
    match pos {
        Some(pos) => match board.get_figure(pos) {
            Some(figure) => figure.fig_type == FigureType::Pawn && figure.color == active_color,
            None => false,
        },
        None => false,
    }
}

/// What a list holds after one more element is pushed, and that it stays
/// free of duplicates if the element is new.
proof fn lemma_push_contains(found: Seq<int>, x: int)
    ensures
        forall|s: int| #[trigger] found.push(x).contains(s) <==> found.contains(s) || s == x,
        found.no_duplicates() && !found.contains(x) ==> found.push(x).no_duplicates(),
{
    assert forall|s: int| #[trigger] found.push(x).contains(s) <==> found.contains(s) || s
        == x by {
        if found.contains(s) {
            let k = choose|k: int| 0 <= k < found.len() && found[k] == s;
            assert(found.push(x)[k] == s);
        }
        if s == x {
            assert(found.push(x)[found.len() as int] == s);
        }
    }
}

/// The squares from which a pawn of `active_color` can move to `target`.
fn pawn_origins(
    target: Position,
    active_color: Color,
    board: &Board,
    en_passant_intercept_pos: Option<Position>,
) -> (result: Vec<Position>)
    ensures
        forall|s: int|
            indices(result@).contains(s) <==> pawn_origin(
                board@,
                opt_index(en_passant_intercept_pos),
                active_color,
                s,
                target@,
            ),
        indices(result@).no_duplicates(),
{
    let ghost t = target@;
    let ghost squares = board@;
    let ghost ep = opt_index(en_passant_intercept_pos);
    let ghost f = forward(active_color);
    let ghost (tc, tr) = (col_of(t), row_of(t));
    let mut result: Vec<Position> = Vec::new();
    let row = target.row();
    // read for its bound: every square has an index below 64
    let target_index = target.index();
    proof {
        board.lemma_len();
        lemma_square_of_coordinates(t);
    }
    let in_range = match active_color {
        Color::White => row > 1,
        Color::Black => row < 6,
    };
    let ghost mut single_added = false;
    let ghost mut double_added = false;
    let ghost mut left_added = false;
    let ghost mut right_added = false;
    let ghost s1 = square_at(tc, tr - f);
    let ghost s2 = square_at(tc, tr - 2 * f);
    let ghost s3 = square_at(tc - 1, tr - f);
    let ghost s4 = square_at(tc + 1, tr - f);
    if in_range {
        let target_pos_is_empty = board.is_empty(target);
        let vertical_direction = match active_color {
            Color::White => Direction::Down,
            Color::Black => Direction::Up,
        };
        proof {
            lemma_coordinates(tc, tr - f);
        }
        if target_pos_is_empty {
            // check only straight pawn moves
            let single_step_straight_pos = target.step_unchecked(vertical_direction);
            assert(single_step_straight_pos@ == s1);
            if contains_active_pawn(Some(single_step_straight_pos), active_color, board) {
                proof {
                    lemma_push_contains(indices(result@), s1);
                    lemma_indices_push(result@, single_step_straight_pos);
                    single_added = true;
                }
                result.push(single_step_straight_pos);
            }
            let target_row_eligible_for_double_step: usize = match active_color {
                Color::White => 3,
                Color::Black => 4,
            };
            if row == target_row_eligible_for_double_step && board.is_empty(
                single_step_straight_pos,
            ) {
                // check double step pawn move
                proof {
                    lemma_coordinates(tc, tr - 2 * f);
                }
                let double_step_straight_pos = single_step_straight_pos.step_unchecked(
                    vertical_direction,
                );
                assert(double_step_straight_pos@ == s2);
                if contains_active_pawn(Some(double_step_straight_pos), active_color, board) {
                    proof {
                        lemma_push_contains(indices(result@), s2);
                        lemma_indices_push(result@, double_step_straight_pos);
                        double_added = true;
                    }
                    result.push(double_step_straight_pos);
                }
            }
        }
        let at_intercept = match en_passant_intercept_pos {
            Some(intercept_pos) => target == intercept_pos,
            None => false,
        };
        proof {
            if en_passant_intercept_pos is Some {
                if target@ == en_passant_intercept_pos->0@ {
                    Position::lemma_same_square(target, en_passant_intercept_pos->0);
                }
            }
            assert(at_intercept == (ep == Some(t)));
        }
        assert(forall|s: int|
            indices(result@).contains(s) <==> (single_added && s == s1) || (double_added && s
                == s2));
        if !target_pos_is_empty || at_intercept {
            // check only diagonal moves
            let (left, right): (Direction, Direction) = match active_color {
                Color::White => (Direction::DownLeft, Direction::DownRight),
                Color::Black => (Direction::UpLeft, Direction::UpRight),
            };
            let left_pos = target.step(left);
            proof {
                if left_pos is Some {
                    lemma_coordinates(tc - 1, tr - f);
                    assert(left_pos->0@ == s3);
                }
            }
            if contains_active_pawn(left_pos, active_color, board) {
                if let Some(pos) = left_pos {
                    proof {
                        lemma_push_contains(indices(result@), s3);
                        lemma_indices_push(result@, pos);
                        left_added = true;
                    }
                    result.push(pos);
                }
            }
            let right_pos = target.step(right);
            proof {
                if right_pos is Some {
                    lemma_coordinates(tc + 1, tr - f);
                    assert(right_pos->0@ == s4);
                }
            }
            if contains_active_pawn(right_pos, active_color, board) {
                if let Some(pos) = right_pos {
                    proof {
                        lemma_push_contains(indices(result@), s4);
                        lemma_indices_push(result@, pos);
                        right_added = true;
                    }
                    result.push(pos);
                }
            }
        }
    }
    proof {
        let found = indices(result@);
        assert(forall|s: int|
            found.contains(s) <==> (single_added && s == s1) || (double_added && s == s2) || (
            left_added && s == s3) || (right_added && s == s4));
        assert forall|s: int| found.contains(s) <==> pawn_origin(
            squares,
            ep,
            active_color,
            s,
            t,
        ) by {
            if pawn_origin(squares, ep, active_color, s, t) {
                lemma_square_of_coordinates(s);
            }
            if found.contains(s) {
                if tc >= 1 && 0 <= tr - f < 8 {
                    lemma_coordinates(tc - 1, tr - f);
                }
                if tc <= 6 && 0 <= tr - f < 8 {
                    lemma_coordinates(tc + 1, tr - f);
                }
                if 0 <= tr - f < 8 {
                    lemma_coordinates(tc, tr - f);
                }
                if 0 <= tr - 2 * f < 8 {
                    lemma_coordinates(tc, tr - 2 * f);
                }
            }
        }
    }
    result
}

/// Joining two duplicate-free lists that share no element gives a
/// duplicate-free list that holds what either held.
proof fn lemma_join_distinct(a: Seq<int>, b: Seq<int>)
    requires
        a.no_duplicates(),
        b.no_duplicates(),
        forall|x: int| a.contains(x) ==> !b.contains(x),
    ensures
        (a + b).no_duplicates(),
        forall|x: int| #[trigger] (a + b).contains(x) <==> a.contains(x) || b.contains(x),
{
    assert forall|i: int, j: int| 0 <= i < (a + b).len() && 0 <= j < (a + b).len() && i
        != j implies (a + b)[i] != (a + b)[j] by {
        if i < a.len() && j >= a.len() {
            assert(a.contains(a[i]));
            assert(b.contains(b[j - a.len()]));
        }
        if j < a.len() && i >= a.len() {
            assert(a.contains(a[j]));
            assert(b.contains(b[i - a.len()]));
        }
    }
    assert forall|x: int| #[trigger] (a + b).contains(x) <==> a.contains(x) || b.contains(x) by {
        if a.contains(x) {
            let k = choose|k: int| 0 <= k < a.len() && a[k] == x;
            assert((a + b)[k] == x);
        }
        if b.contains(x) {
            let k = choose|k: int| 0 <= k < b.len() && b[k] == x;
            assert((a + b)[a.len() + k] == x);
        }
        if (a + b).contains(x) {
            let k = choose|k: int| 0 <= k < (a + b).len() && (a + b)[k] == x;
            if k < a.len() {
                assert(a[k] == x);
            } else {
                assert(b[k - a.len()] == x);
            }
        }
    }
}

/// The squares from which a piece of `active_color` can move to `target`,
/// each once and in no particular order.
///
/// A square is in the list exactly if a piece of that side stands on it and
/// the rules of its kind take it to `target`: see [`can_reach`]. Whether the
/// move would leave the side's own king attacked is not looked at, and
/// castling is no way for a king to reach a square.
pub fn get_positions_to_reach_target_from(
    target: Position,
    active_color: Color,
    board: &Board,
    en_passant_intercept_pos: Option<Position>,
) -> (result: Vec<Position>)
    ensures
        forall|s: int|
            indices(result@).contains(s) <==> can_reach(
                board@,
                opt_index(en_passant_intercept_pos),
                active_color,
                s,
                target@,
            ),
        indices(result@).no_duplicates(),
{
    // check bishop, rook, queen, king moves (only normal king moves, no castling)
    let mut result = slider_origins(target, active_color, board);
    // check knight moves
    let mut knights = knight_origins(target, active_color, board);
    // check pawn moves
    let mut pawns = pawn_origins(target, active_color, board, en_passant_intercept_pos);
    proof {
        let a = indices(result@);
        let b = indices(knights@);
        let c = indices(pawns@);
        lemma_join_distinct(a, b);
        lemma_join_distinct(a + b, c);
        assert(indices(result@ + knights@) =~= a + b);
        assert(indices((result@ + knights@) + pawns@) =~= (a + b) + c);
    }
    result.append(&mut knights);
    result.append(&mut pawns);
    result
}

} // verus!
