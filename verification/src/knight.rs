//! Where a knight can jump.

use vstd::prelude::*;
use crate::base::Color;
use crate::board::Board;
use crate::figure::Figure;
use crate::geometry::{knight_jump, lemma_coordinates, lemma_square_of_coordinates};
use crate::position::{col_of, is_square, row_of, Position};
use crate::reachable::indices;

verus! {

/// The place of a knight's jump by `dc` files and `dr` ranks in the order in
/// which the eight jumps are tried, clockwise from the one that goes one
/// file right and two ranks up.
pub open spec fn jump_rank(dc: int, dr: int) -> int {
    if dc == 1 && dr == 2 {
        0
    } else if dc == 2 && dr == 1 {
        1
    } else if dc == 2 && dr == -1 {
        2
    } else if dc == 1 && dr == -2 {
        3
    } else if dc == -1 && dr == -2 {
        4
    } else if dc == -2 && dr == -1 {
        5
    } else if dc == -2 && dr == 1 {
        6
    } else {
        7
    }
}

/// Whether a knight of side `color` on `s` may jump to `p`: the squares are
/// a knight's jump apart and no piece of its own side stands on `p`.
pub open spec fn knight_destination(
    squares: Seq<Option<Figure>>,
    color: Color,
    s: int,
    p: int,
) -> bool {
    &&& is_square(p)
    &&& knight_jump(s, p)
    &&& !(squares[p] is Some && squares[p]->0.color == color)
}

impl Position {
    /// The squares to which a knight of side `color` may jump from here:
    /// every square a knight's jump away that holds no piece of that side.
    pub fn reachable_knight_positions(&self, color: Color, board: &Board) -> (result: Vec<
        Position,
    >)
        ensures
            forall|p: int|
                indices(result@).contains(p) <==> knight_destination(board@, color, self@, p),
            indices(result@).no_duplicates(),
    {
        let ghost s = self@;
        let ghost squares = board@;
        let col = self.column() as i8;
        let row = self.row() as i8;
        // read for its bound: every square has an index below 64
        let self_index = self.index();
        let mut result: Vec<Position> = Vec::new();
        let mut i: usize = 0;
        proof {
            lemma_square_of_coordinates(s);
        }
        while i < 8
            invariant
                0 <= i <= 8,
                is_square(s),
                s == self@,
                squares == board@,
                col == col_of(s),
                row == row_of(s),
                forall|k: int|
                    0 <= k < result@.len() ==> {
                        let p = #[trigger] indices(result@)[k];
                        knight_destination(squares, color, s, p) && jump_rank(
                            col_of(p) - col_of(s),
                            row_of(p) - row_of(s),
                        ) < i
                    },
                forall|p: int|
                    knight_destination(squares, color, s, p) && jump_rank(
                        col_of(p) - col_of(s),
                        row_of(p) - row_of(s),
                    ) < i ==> #[trigger] indices(result@).contains(p),
                indices(result@).no_duplicates(),
            decreases 8 - i,
        {
            let (dc, dr): (i8, i8) = if i == 0 {
                (1, 2)
            } else if i == 1 {
                (2, 1)
            } else if i == 2 {
                (2, -1)
            } else if i == 3 {
                (1, -2)
            } else if i == 4 {
                (-1, -2)
            } else if i == 5 {
                (-2, -1)
            } else if i == 6 {
                (-2, 1)
            } else {
                (-1, 2)
            };
            assert(jump_rank(dc as int, dr as int) == i);
            let c = col + dc;
            let r = row + dr;
            let ghost before = result@;
            let mut added = false;
            if 0 <= c && c < 8 && 0 <= r && r < 8 {
                let pos = Position::new_unchecked(c as usize, r as usize);
                proof {
                    lemma_coordinates(c as int, r as int);
                }
                let own = match board.get_figure(pos) {
                    Some(figure) => figure.color == color,
                    None => false,
                };
                if !own {
                    result.push(pos);
                    added = true;
                    proof {
                        assert(indices(result@) =~= indices(before).push(pos@));
                        assert(knight_destination(squares, color, s, pos@));
                    }
                }
            }
            proof {
                assert forall|p: int|
                    knight_destination(squares, color, s, p) && jump_rank(
                        col_of(p) - col_of(s),
                        row_of(p) - row_of(s),
                    ) < i + 1 implies #[trigger] indices(result@).contains(p) by {
                    if jump_rank(col_of(p) - col_of(s), row_of(p) - row_of(s)) < i {
                        assert(indices(before).contains(p));
                        let k = choose|k: int|
                            0 <= k < indices(before).len() && indices(before)[k] == p;
                        assert(indices(result@)[k] == p);
                    } else {
                        lemma_square_of_coordinates(p);
                        assert(col_of(p) == c && row_of(p) == r);
                        assert(added);
                        assert(indices(result@)[before.len() as int] == p);
                    }
                }
            }
            i = i + 1;
        }
        proof {
            assert forall|p: int| indices(result@).contains(p) implies knight_destination(
                squares,
                color,
                s,
                p,
            ) by {
                let k = choose|k: int| 0 <= k < indices(result@).len() && indices(result@)[k] == p;
                assert(knight_destination(squares, color, s, indices(result@)[k]));
            }
        }
        result
    }
}

} // verus!
