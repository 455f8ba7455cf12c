//! Lines, rays and distances between squares.

use vstd::prelude::*;
use crate::direction::Direction;
use crate::position::{col_of, is_square, on_board, row_of, square_at};

verus! {

/// The absolute value of `v`.
pub open spec fn abs(v: int) -> int {
    if v < 0 {
        -v
    } else {
        v
    }
}

/// Whether `m` lies strictly between `a` and `b`.
pub open spec fn between(a: int, m: int, b: int) -> bool {
    (a < m && m < b) || (b < m && m < a)
}

/// The number of king steps from `s` to `t`.
pub open spec fn distance(s: int, t: int) -> int {
    let dc = abs(col_of(t) - col_of(s));
    let dr = abs(row_of(t) - row_of(s));
    if dc > dr {
        dc
    } else {
        dr
    }
}

/// Whether `s` and `t` are different squares of one file or one rank.
pub open spec fn rook_line(s: int, t: int) -> bool {
    s != t && (col_of(s) == col_of(t) || row_of(s) == row_of(t))
}

/// Whether `s` and `t` are different squares of one diagonal.
pub open spec fn bishop_line(s: int, t: int) -> bool {
    s != t && abs(col_of(t) - col_of(s)) == abs(row_of(t) - row_of(s))
}

/// Whether `s` and `t` are a knight's jump apart.
pub open spec fn knight_jump(s: int, t: int) -> bool {
    let dc = abs(col_of(t) - col_of(s));
    let dr = abs(row_of(t) - row_of(s));
    (dc == 1 && dr == 2) || (dc == 2 && dr == 1)
}

/// Whether `m` lies strictly inside the segment of a file, rank or diagonal
/// that joins `s` and `t`.
pub open spec fn on_segment(s: int, m: int, t: int) -> bool {
    let (sc, sr) = (col_of(s), row_of(s));
    let (mc, mr) = (col_of(m), row_of(m));
    let (tc, tr) = (col_of(t), row_of(t));
    if sr == tr {
        mr == sr && between(sc, mc, tc)
    } else if sc == tc {
        mc == sc && between(sr, mr, tr)
    } else if tc - sc == tr - sr {
        mc - sc == mr - sr && between(sc, mc, tc)
    } else if tc - sc == sr - tr {
        mc - sc == sr - mr && between(sc, mc, tc)
    } else {
        false
    }
}

impl Direction {
    /// Change of file after `k` steps.
    pub open spec fn run_x(self, k: int) -> int {
        if self.dx() > 0 {
            k
        } else if self.dx() < 0 {
            -k
        } else {
            0
        }
    }

    /// Change of rank after `k` steps.
    pub open spec fn run_y(self, k: int) -> int {
        if self.dy() > 0 {
            k
        } else if self.dy() < 0 {
            -k
        } else {
            0
        }
    }

    /// The place of the direction in the order in which rays are walked:
    /// the four straight ones first.
    pub open spec fn rank(self) -> int {
        match self {
            Direction::Up => 0,
            Direction::Right => 1,
            Direction::Down => 2,
            Direction::Left => 3,
            Direction::UpRight => 4,
            Direction::DownRight => 5,
            Direction::DownLeft => 6,
            Direction::UpLeft => 7,
        }
    }
}

/// Whether `k` steps from `t` in direction `e` stay on the board.
pub open spec fn ray_on_board(t: int, e: Direction, k: int) -> bool {
    on_board(col_of(t) + e.run_x(k), row_of(t) + e.run_y(k))
}

/// The square `k` steps from `t` in direction `e`.
pub open spec fn ray_square(t: int, e: Direction, k: int) -> int {
    square_at(col_of(t) + e.run_x(k), row_of(t) + e.run_y(k))
}

/// The direction in which `s` lies as seen from `t`, for two squares on one
/// line.
pub open spec fn heading(t: int, s: int) -> Direction {
    let dc = col_of(s) - col_of(t);
    let dr = row_of(s) - row_of(t);
    if dc == 0 {
        if dr > 0 {
            Direction::Up
        } else {
            Direction::Down
        }
    } else if dr == 0 {
        if dc > 0 {
            Direction::Right
        } else {
            Direction::Left
        }
    } else if dc > 0 {
        if dr > 0 {
            Direction::UpRight
        } else {
            Direction::DownRight
        }
    } else {
        if dr > 0 {
            Direction::UpLeft
        } else {
            Direction::DownLeft
        }
    }
}

/// A square reached along a ray lies on a line with the start, in the ray's
/// direction and at the number of steps taken; the squares passed on the way
/// are on the board too.
pub proof fn lemma_ray_geometry(t: int, e: Direction, n: int)
    requires
        is_square(t),
        n >= 1,
        ray_on_board(t, e, n),
    ensures
        is_square(ray_square(t, e, n)),
        ray_square(t, e, n) != t,
        heading(t, ray_square(t, e, n)) == e,
        distance(ray_square(t, e, n), t) == n,
        e.is_straight() <==> rook_line(ray_square(t, e, n), t),
        !e.is_straight() <==> bishop_line(ray_square(t, e, n), t),
        forall|j: int| 0 <= j <= n ==> #[trigger] ray_on_board(t, e, j),
{
}

/// Two squares on one line are joined by the ray in their heading.
pub proof fn lemma_heading_ray(t: int, s: int)
    requires
        is_square(t),
        is_square(s),
        rook_line(s, t) || bishop_line(s, t),
    ensures
        distance(s, t) >= 1,
        ray_on_board(t, heading(t, s), distance(s, t)),
        ray_square(t, heading(t, s), distance(s, t)) == s,
{
}

/// File and rank of the square at given coordinates are those coordinates,
/// and a square is the one at its own coordinates.
pub proof fn lemma_coordinates(col: int, row: int)
    requires
        on_board(col, row),
    ensures
        is_square(square_at(col, row)),
        col_of(square_at(col, row)) == col,
        row_of(square_at(col, row)) == row,
{
}

/// A square is the one at its own file and rank.
pub proof fn lemma_square_of_coordinates(sq: int)
    requires
        is_square(sq),
    ensures
        on_board(col_of(sq), row_of(sq)),
        square_at(col_of(sq), row_of(sq)) == sq,
{
}

/// A square strictly inside the segment between `t` and the `n`th square of
/// a ray from `t` is an earlier square of that ray.
pub proof fn lemma_segment_is_ray(t: int, e: Direction, n: int, m: int)
    requires
        is_square(t),
        is_square(m),
        n >= 1,
        ray_on_board(t, e, n),
        on_segment(ray_square(t, e, n), m, t),
    ensures
        0 < distance(m, t) < n,
        m == ray_square(t, e, distance(m, t)),
{
    let (tc, tr) = (col_of(t), row_of(t));
    let (mc, mr) = (col_of(m), row_of(m));
    let s = ray_square(t, e, n);
    lemma_coordinates(tc + e.run_x(n), tr + e.run_y(n));
    lemma_square_of_coordinates(m);
    lemma_square_of_coordinates(t);
    let (sc, sr) = (col_of(s), row_of(s));
    assert(sc == tc + e.run_x(n) && sr == tr + e.run_y(n));
    let j = distance(m, t);
    assert(0 < j < n && mc == tc + e.run_x(j) && mr == tr + e.run_y(j)) by {
        match e {
            Direction::Up => {},
            Direction::UpRight => {},
            Direction::Right => {},
            Direction::DownRight => {},
            Direction::Down => {},
            Direction::DownLeft => {},
            Direction::Left => {},
            Direction::UpLeft => {},
        }
    }
}

/// The squares that a ray passes before its `n`th lie strictly inside the
/// segment between the start and the `n`th.
pub proof fn lemma_ray_is_segment(t: int, e: Direction, n: int, j: int)
    requires
        is_square(t),
        0 < j < n,
        ray_on_board(t, e, n),
    ensures
        ray_on_board(t, e, j),
        is_square(ray_square(t, e, j)),
        on_segment(ray_square(t, e, n), ray_square(t, e, j), t),
{
    let (tc, tr) = (col_of(t), row_of(t));
    lemma_square_of_coordinates(t);
    assert(ray_on_board(t, e, j));
    lemma_coordinates(tc + e.run_x(n), tr + e.run_y(n));
    lemma_coordinates(tc + e.run_x(j), tr + e.run_y(j));
    let s = ray_square(t, e, n);
    let m = ray_square(t, e, j);
    let (sc, sr) = (col_of(s), row_of(s));
    let (mc, mr) = (col_of(m), row_of(m));
    assert(sc == tc + e.run_x(n) && sr == tr + e.run_y(n));
    assert(mc == tc + e.run_x(j) && mr == tr + e.run_y(j));
    match e {
        Direction::Up => {},
        Direction::UpRight => {},
        Direction::Right => {},
        Direction::DownRight => {},
        Direction::Down => {},
        Direction::DownLeft => {},
        Direction::Left => {},
        Direction::UpLeft => {},
    }
}

} // verus!
