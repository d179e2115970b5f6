//! Entrants and the raw spreadsheet rows they are built from.

use vstd::prelude::*;

use crate::guess::Guess;

verus! {

/// An entrant's identity as it arrives from the ingestion layer: the cell
/// text and the display color it was written in, as a hex string.
#[derive(Debug, Clone)]
pub struct Name {
    pub text: String,
    pub color: String,
}

impl Name {
    /// Bundles a cell text with its display color.
    pub fn new(text: String, color: String) -> (n: Name)
        ensures
            n.text@ == text@,
            n.color@ == color@,
    {
        Name { text, color }
    }

    /// Whether the cell text is empty: such rows are residual spreadsheet
    /// cells, not entrants, and the caller filters them out.
    pub fn is_empty(&self) -> (r: bool)
        ensures
            r == (self.text@.len() == 0),
    {
        self.text.as_str().is_empty()
    }

    /// The cell text.
    pub fn text(&self) -> (r: &str)
        ensures
            r@ == self.text@,
    {
        self.text.as_str()
    }

    /// The display color, as a hex string.
    pub fn color(&self) -> (r: &str)
        ensures
            r@ == self.color@,
    {
        self.color.as_str()
    }
}

/// One raw row handed in by the ingestion layer: a row number, a name, the
/// free-text guess cell and an optional starting score (0 when absent).
#[derive(Debug, Clone)]
pub struct Row {
    pub num: u32,
    pub name: Name,
    pub guess: String,
    pub starting_score: i32,
}

impl Row {
    /// Bundles one raw spreadsheet row.
    pub fn new(num: u32, name: Name, guess: String, starting_score: i32) -> (r: Row)
        ensures
            r.num == num,
            r.name == name,
            r.guess@ == guess@,
            r.starting_score == starting_score,
    {
        Row { num, name, guess, starting_score }
    }

    /// The row's number in the source sheet, for error reporting.
    pub fn num(&self) -> (r: u32)
        ensures
            r == self.num,
    {
        self.num
    }

    /// The entrant's name cell.
    pub fn name(&self) -> (r: &Name)
        ensures
            r == &self.name,
    {
        &self.name
    }

    /// The free-text guess cell.
    pub fn guess(&self) -> (r: &str)
        ensures
            r@ == self.guess@,
    {
        self.guess.as_str()
    }

    /// The score the entrant starts the round with.
    pub fn starting_score(&self) -> (r: i32)
        ensures
            r == self.starting_score,
    {
        self.starting_score
    }
}

/// A validated entrant: identity, sheet, accumulated score and the source
/// row it came from.
#[derive(Debug, Clone)]
pub struct Player {
    pub name: String,
    pub color: String,
    pub guess: Guess,
    pub score: i32,
    pub row: u32,
}

} // verus!
