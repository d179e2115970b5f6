//! Guess sheets and answer keys, parsed from free text.
//!
//! Both are built by scanning the input left to right, keeping only the
//! square characters and mapping each surviving character to a [`Square`]
//! in order. Everything else (whitespace, separators, decoration) is
//! silently discarded, so formatting artifacts never shift square
//! positions. Parsing itself never fails; the resulting length is the
//! only validation signal.

use vstd::prelude::*;

use crate::square::{is_square_char, square_of_char, char_of_square, Square};

verus! {

/// The characters that denote a key square: a key carries definite answers,
/// so only `Y`/`N` (either case) count.
pub open spec fn is_key_char(c: char) -> bool {
    c == 'Y' || c == 'y' || c == 'N' || c == 'n'
}

/// The squares denoted by a text, with every character that `keep` rejects
/// discarded: the common shape of guess and key parsing.
pub open spec fn squares_of_text(s: Seq<char>, keep: spec_fn(char) -> bool) -> Seq<Square>
    decreases s.len(),
{
    if s.len() == 0 {
        Seq::empty()
    } else if keep(s.last()) {
        squares_of_text(s.drop_last(), keep).push(square_of_char(s.last()))
    } else {
        squares_of_text(s.drop_last(), keep)
    }
}

/// The squares a guess text denotes.
pub open spec fn guess_squares(s: Seq<char>) -> Seq<Square> {
    squares_of_text(s, |c: char| is_square_char(c))
}

/// The squares a key text denotes.
pub open spec fn key_squares(s: Seq<char>) -> Seq<Square> {
    squares_of_text(s, |c: char| is_key_char(c))
}

/// One player's full ordered sheet of squares.
#[derive(Debug, Clone)]
pub struct Guess(Vec<Square>);

/// The revealed, authoritative ordered answers every guess is scored against.
#[derive(Debug, Clone)]
pub struct Key(Vec<Square>);

impl View for Guess {
    type V = Seq<Square>;

    closed spec fn view(&self) -> Seq<Square> {
        self.0@
    }
}

impl View for Key {
    type V = Seq<Square>;

    closed spec fn view(&self) -> Seq<Square> {
        self.0@
    }
}

/// Scans `s` and keeps the squares of its square characters; when
/// `keys_only` is set, only the key characters `Y`/`N` count.
fn scan_squares(s: &str, keys_only: bool) -> (r: Vec<Square>)
    ensures
        keys_only ==> r@ == key_squares(s@),
        !keys_only ==> r@ == guess_squares(s@),
{
    let ghost keep: spec_fn(char) -> bool = if keys_only {
        |c: char| is_key_char(c)
    } else {
        |c: char| is_square_char(c)
    };
    let n = s.unicode_len();
    let mut result: Vec<Square> = Vec::new();
    let mut i: usize = 0;
    while i < n
        invariant
            n == s@.len(),
            i <= n,
            keep == (if keys_only {
                |c: char| is_key_char(c)
            } else {
                |c: char| is_square_char(c)
            }),
            result@ == squares_of_text(s@.take(i as int), keep),
        decreases n - i,
    {
        let c = s.get_char(i);
        proof {
            assert(s@.take(i + 1).drop_last() =~= s@.take(i as int));
            assert(s@.take(i + 1).last() == s@[i as int]);
        }
        let kept = if keys_only {
            matches!(c, 'Y' | 'y' | 'N' | 'n')
        } else {
            matches!(c, 'Y' | 'y' | 'N' | 'n' | 'P' | 'p')
        };
        if kept {
            result.push(Square::from_char(c));
        }
        i += 1;
    }
    proof {
        assert(s@.take(n as int) =~= s@);
    }
    result
}

impl Guess {
    /// Builds a guess sheet from free text, discarding every character that
    /// is not one of `{Y, y, N, n, P, p}`.
    pub fn parse(s: &str) -> (g: Guess)
        ensures
            g@ == guess_squares(s@),
    {
        Guess(scan_squares(s, false))
    }

    /// The number of squares on the sheet.
    pub fn len(&self) -> (n: usize)
        ensures
            n == self@.len(),
    {
        self.0.len()
    }

    /// The squares of the sheet, in order.
    pub fn as_squares(&self) -> (r: &[Square])
        ensures
            r@ == self@,
    {
        self.0.as_slice()
    }

    /// The sheet printed as one letter per square.
    pub fn text(&self) -> (r: String)
        ensures
            r@ == self@.map_values(|s: Square| char_of_square(s)),
    {
        squares_text(self.0.as_slice())
    }
}

impl Key {
    /// Builds a key from free text, discarding every character that is not
    /// one of `{Y, y, N, n}`: a key answers every square, so it admits no
    /// `Pass`.
    pub fn parse(s: &str) -> (k: Key)
        ensures
            k@ == key_squares(s@),
    {
        Key(scan_squares(s, true))
    }

    /// The number of answers on the key.
    pub fn len(&self) -> (n: usize)
        ensures
            n == self@.len(),
    {
        self.0.len()
    }

    /// The answers of the key, in order.
    pub fn as_squares(&self) -> (r: &[Square])
        ensures
            r@ == self@,
    {
        self.0.as_slice()
    }
}

/// Prints a run of squares as one letter each.
fn squares_text(squares: &[Square]) -> (r: String)
    ensures
        r@ == squares@.map_values(|s: Square| char_of_square(s)),
{
    let n = squares.len();
    let mut r = String::new();
    let mut i: usize = 0;
    while i < n
        invariant
            n == squares@.len(),
            i <= n,
            r@ == squares@.take(i as int).map_values(|s: Square| char_of_square(s)),
        decreases n - i,
    {
        match squares[i] {
            Square::Yes => r.append("Y"),
            Square::No => r.append("N"),
            Square::Pass => r.append("P"),
        }
        proof {
            reveal_strlit("Y");
            reveal_strlit("N");
            reveal_strlit("P");
            assert(squares@.take(i + 1).map_values(|s: Square| char_of_square(s))
                =~= squares@.take(i as int).map_values(|s: Square| char_of_square(s))
                    + seq![char_of_square(squares@[i as int])]);
        }
        i += 1;
    }
    proof {
        assert(squares@.take(n as int) =~= squares@);
    }
    r
}

/// Characters the scan discards never shift square positions: inserting any
/// rejected character anywhere in the text leaves the parsed squares
/// unchanged. In particular a guess string interleaved with newlines, spaces
/// or stray punctuation parses identically to the bare square characters.
pub proof fn lemma_parse_ignores_noise(before: Seq<char>, noise: char, after: Seq<char>, keep: spec_fn(char) -> bool)
    requires
        !keep(noise),
    ensures
        squares_of_text(before + seq![noise] + after, keep) == squares_of_text(before + after, keep),
    decreases after.len(),
{
    if after.len() == 0 {
        assert((before + seq![noise] + after).drop_last() =~= before);
        assert((before + seq![noise] + after).last() == noise);
        assert(before + after =~= before);
    } else {
        let whole = before + seq![noise] + after;
        let flat = before + after;
        assert(whole.drop_last() =~= before + seq![noise] + after.drop_last());
        assert(flat.drop_last() =~= before + after.drop_last());
        assert(whole.last() == after.last());
        assert(flat.last() == after.last());
        lemma_parse_ignores_noise(before, noise, after.drop_last(), keep);
    }
}

} // verus!
