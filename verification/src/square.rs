//! The atomic prediction unit: a tri-state square.

use vstd::prelude::*;

verus! {

/// One prediction square: a player either expects the event (`Yes`),
/// rejects it (`No`), or abstains (`Pass`).
#[derive(Debug, Clone, Copy, PartialEq, Eq, Structural)]
pub enum Square {
    Yes,
    No,
    Pass,
}

/// The characters that denote a square in free text, case-insensitively.
pub open spec fn is_square_char(c: char) -> bool {
    c == 'Y' || c == 'y' || c == 'N' || c == 'n' || c == 'P' || c == 'p'
}

/// The square denoted by a square character.
pub open spec fn square_of_char(c: char) -> Square {
    if c == 'Y' || c == 'y' {
        Square::Yes
    } else if c == 'N' || c == 'n' {
        Square::No
    } else {
        Square::Pass
    }
}

/// The letter printed for a square.
pub open spec fn char_of_square(s: Square) -> char {
    match s {
        Square::Yes => 'Y',
        Square::No => 'N',
        Square::Pass => 'P',
    }
}

impl Square {
    /// Reads one square character. Characters outside `{Y, y, N, n, P, p}`
    /// are not squares and must be skipped by the caller.
    pub fn from_char(guess: char) -> (s: Square)
        requires
            is_square_char(guess),
        ensures
            s == square_of_char(guess),
    {
        match guess {
            'Y' | 'y' => Square::Yes,
            'N' | 'n' => Square::No,
            _ => Square::Pass,
        }
    }

    /// The letter a square prints as: `Y`, `N` or `P`.
    pub fn letter(&self) -> (c: char)
        ensures
            c == char_of_square(*self),
    {
        match self {
            Square::Yes => 'Y',
            Square::No => 'N',
            Square::Pass => 'P',
        }
    }
}

} // verus!
