//! Colors and castling permissions.

use vstd::prelude::*;

verus! {

/// The two sides of a chess game.
#[derive(Debug, Copy, Clone, PartialEq, Eq, Structural)]
pub enum Color {
    Black,
    White,
}

impl Color {
    /// The opposing side.
    pub open spec fn opponent(self) -> Color {
        match self {
            Color::White => Color::Black,
            Color::Black => Color::White,
        }
    }

    /// The name of this side.
    pub open spec fn name(self) -> Seq<char> {
        match self {
            Color::White => "white"@,
            Color::Black => "black"@,
        }
    }

    /// The character that names this side in a FEN record.
    pub open spec fn fen_char(self) -> char {
        match self {
            Color::Black => 'b',
            Color::White => 'w',
        }
    }

    /// Returns the opposing side.
    pub fn toggle(&self) -> (other: Color)
        ensures
            other == self.opponent(),
    {
        match self {
            Color::White => Color::Black,
            Color::Black => Color::White,
        }
    }

    /// The name of this side: `white` or `black`.
    pub fn to_string(&self) -> (s: String)
        ensures
            s@ == self.name(),
    {
        match self {
            Color::White => "white".to_owned(),
            Color::Black => "black".to_owned(),
        }
    }

    /// Returns `'w'` for White and `'b'` for Black.
    pub fn get_fen_char(&self) -> (c: char)
        ensures
            c == self.fen_char(),
    {
        match self {
            Color::Black => 'b',
            Color::White => 'w',
        }
    }
}

/// A permission that starts out granted or not and can only ever be withdrawn.
#[derive(Debug, Copy, Clone, PartialEq, Eq, Structural)]
pub struct Disallowable {
    value: bool,
}

impl Disallowable {
    /// Whether the permission is still granted.
    pub closed spec fn allowed(self) -> bool {
        self.value
    }

    /// A permission with the given initial state.
    pub fn new(value: bool) -> (d: Disallowable)
        ensures
            d.allowed() == value,
    {
        Disallowable { value }
    }

    /// Withdraws the permission for good. What is left is the value that
    /// every permission not granted has, whether it was ever granted or not.
    pub fn disallow(&mut self)
        ensures
            !final(self).allowed(),
            forall|other: Disallowable| !(#[trigger] other.allowed()) ==> *final(self) == other,
    {
        self.value = false;
    }

    /// Whether the permission has not been withdrawn.
    pub fn is_still_allowed(&self) -> (b: bool)
        ensures
            b == self.allowed(),
    {
        self.value
    }

    /// Two permissions in the same state are the same value: a permission
    /// that was withdrawn is equal to one that was never granted, and
    /// withdrawing it again changes nothing.
    pub proof fn lemma_allowed_decides(a: Disallowable, b: Disallowable)
        requires
            a.allowed() == b.allowed(),
        ensures
            a == b,
    {
    }

    /// `true` while the permission is granted, `false` once it is withdrawn.
    pub fn to_string(&self) -> (s: String)
        ensures
            s@ == if self.allowed() {
                "true"@
            } else {
                "false"@
            },
    {
        if self.value {
            "true".to_owned()
        } else {
            "false".to_owned()
        }
    }
}

} // verus!
