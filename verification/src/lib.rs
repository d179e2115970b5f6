//! Scoring engine for a prediction-bingo pool.
//!
//! Players fill a sheet of Yes/No/Pass guesses; once the authoritative key
//! is revealed, each guess is compared square by square against the key and
//! weighted by the variant's board, and the players are ranked by score.

pub mod board;
pub mod error;
pub mod game;
pub mod guess;
pub mod html;
pub mod player;
pub mod rank;
pub mod score;
pub mod square;
pub mod text;

pub use error::Error;
pub use game::{GreatWar, Normal};
pub use guess::Guess;
pub use guess::Key;
pub use player::{Name, Player, Row};
pub use square::Square;

use vstd::prelude::*;

use board::{square_count, Variant};
use game::{
    error_reports_row, first_bad_row, players_match_rows, rows_valid, scored_player,
    scores_in_range, valid_player_set,
};
use rank::ranked;

verus! {

/// A pool being scored under one of the two rulesets.
#[derive(Debug)]
pub enum Bingo {
    Normal(Normal),
    GreatWar(GreatWar),
}

impl View for Bingo {
    type V = Seq<Player>;

    open spec fn view(&self) -> Seq<Player> {
        match self {
            Bingo::Normal(g) => g@,
            Bingo::GreatWar(g) => g@,
        }
    }
}

impl Bingo {
    /// The ruleset this pool plays.
    pub open spec fn variant(&self) -> Variant {
        match self {
            Bingo::Normal(_) => Variant::Normal,
            Bingo::GreatWar(_) => Variant::GreatWar,
        }
    }

    /// Every sheet has the ruleset's full square count and no name repeats.
    pub open spec fn wf(&self) -> bool {
        valid_player_set(self@, self.variant())
    }

    /// Builds a Normal pool from raw rows, fail-fast on the first invalid
    /// row.
    pub fn normal(rows: &[Row]) -> (r: Result<Bingo, Error>)
        ensures
            (r is Ok) == rows_valid(rows@, square_count(Variant::Normal)),
            r matches Ok(b) ==> b.variant() == Variant::Normal && b.wf() && players_match_rows(
                b@,
                rows@,
            ),
            r matches Err(e) ==> exists|i: int|
                #[trigger] first_bad_row(rows@, square_count(Variant::Normal), i)
                    && error_reports_row(rows@, square_count(Variant::Normal), i, e),
    {
        match Normal::from_rows(rows) {
            Ok(g) => Ok(Bingo::Normal(g)),
            Err(e) => Err(e),
        }
    }

    /// Builds a GreatWar pool from raw rows, fail-fast on the first invalid
    /// row.
    pub fn great_war(rows: &[Row]) -> (r: Result<Bingo, Error>)
        ensures
            (r is Ok) == rows_valid(rows@, square_count(Variant::GreatWar)),
            r matches Ok(b) ==> b.variant() == Variant::GreatWar && b.wf() && players_match_rows(
                b@,
                rows@,
            ),
            r matches Err(e) ==> exists|i: int|
                #[trigger] first_bad_row(rows@, square_count(Variant::GreatWar), i)
                    && error_reports_row(rows@, square_count(Variant::GreatWar), i, e),
    {
        match GreatWar::from_rows(rows) {
            Ok(g) => Ok(Bingo::GreatWar(g)),
            Err(e) => Err(e),
        }
    }

    /// The players, in their current order: ranked once a key has been
    /// played.
    pub fn players(&self) -> (r: &[Player])
        ensures
            r@ == self@,
    {
        match self {
            Bingo::Normal(g) => g.players(),
            Bingo::GreatWar(g) => g.players(),
        }
    }

    /// Scores every player against `key` — each score moves by the play's
    /// points, on top of whatever it already held — and re-sorts the whole
    /// set into leaderboard order.
    pub fn play(&mut self, key: &Key)
        requires
            old(self).wf(),
            scores_in_range(old(self)@, old(self).variant()),
        ensures
            final(self).variant() == old(self).variant(),
            final(self)@.to_multiset() == old(self)@.map_values(
                |p: Player| scored_player(p, key@, old(self).variant()),
            ).to_multiset(),
            final(self)@.len() == old(self)@.len(),
            ranked(final(self)@),
            final(self).wf(),
    {
        match self {
            Bingo::Normal(g) => g.play(key),
            Bingo::GreatWar(g) => g.play(key),
        }
    }

    /// Renders the current standings as a standalone HTML results document
    /// for the caller to write out or image.
    pub fn save_html(&self) -> (r: String)
        ensures
            r@ == html::document_html(self@),
    {
        html::render_html(self.players())
    }
}

} // verus!
