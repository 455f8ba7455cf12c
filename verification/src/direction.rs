//! The eight compass directions on the board.

use vstd::prelude::*;

verus! {

/// A direction of travel, seen from White's side: `Up` raises the rank and
/// `Right` raises the file.
#[derive(Debug, Copy, Clone, PartialEq, Eq, Structural)]
pub enum Direction {
    Up,
    UpRight,
    Right,
    DownRight,
    Down,
    DownLeft,
    Left,
    UpLeft,
}

impl Direction {
    /// Change of file for one step.
    pub open spec fn dx(self) -> int {
        match self {
            Direction::UpRight | Direction::Right | Direction::DownRight => 1,
            Direction::UpLeft | Direction::Left | Direction::DownLeft => -1,
            _ => 0,
        }
    }

    /// Change of rank for one step.
    pub open spec fn dy(self) -> int {
        match self {
            Direction::Up | Direction::UpRight | Direction::UpLeft => 1,
            Direction::Down | Direction::DownRight | Direction::DownLeft => -1,
            _ => 0,
        }
    }

    /// Whether the direction runs along a file or a rank.
    pub open spec fn is_straight(self) -> bool {
        self.dx() == 0 || self.dy() == 0
    }
}

/// The four rook directions.
pub const STRAIGHT_DIRECTIONS: [Direction; 4] = [
    Direction::Up,
    Direction::Right,
    Direction::Down,
    Direction::Left,
];

/// The four bishop directions.
pub const DIAGONAL_DIRECTIONS: [Direction; 4] = [
    Direction::UpRight,
    Direction::DownRight,
    Direction::DownLeft,
    Direction::UpLeft,
];

} // verus!
