//! The two game variants and the engine's operations: build a validated
//! player set from raw rows, and apply a key and rank.
//!
//! Construction is fail-fast: the first offending row aborts the whole
//! batch. Scoring is additive on top of each player's starting score, and
//! the ranked output is score descending with ties broken by name.

use vstd::prelude::*;

use crate::board::{board_total, square_count, Variant};
use crate::error::Error;
use crate::guess::{guess_squares, Guess, Key};
use crate::player::{Player, Row};
use crate::rank::{distinct_names, lemma_distinct_names_permutation, rank_players, ranked};
use crate::score::{lemma_play_points_bounded, lemma_weight_sum_nonneg, play_points, play_score};
use crate::square::Square;

verus! {

/// How a validated player mirrors the raw row it came from: identity and
/// color carried over, the guess cell parsed, and the score seeded with the
/// row's starting score.
pub open spec fn player_matches_row(p: Player, r: Row) -> bool {
    &&& p.name@ == r.name.text@
    &&& p.color@ == r.name.color@
    &&& p.guess@ == guess_squares(r.guess@)
    &&& p.score == r.starting_score
    &&& p.row == r.num
}

/// The whole player set mirrors the whole batch of rows, in order.
pub open spec fn players_match_rows(players: Seq<Player>, rows: Seq<Row>) -> bool {
    &&& players.len() == rows.len()
    &&& forall|i: int| 0 <= i < rows.len() ==> player_matches_row(#[trigger] players[i], rows[i])
}

/// Row `i`'s guess text parses to exactly the required number of squares.
pub open spec fn row_count_ok(rows: Seq<Row>, needed: int, i: int) -> bool {
    guess_squares(rows[i].guess@).len() == needed
}

/// Row `i` repeats the name of an earlier row.
pub open spec fn row_repeats_name(rows: Seq<Row>, i: int) -> bool {
    exists|j: int| 0 <= j < i && rows[j].name.text@ == rows[i].name.text@
}

/// Row `i` passes validation against the earlier rows.
pub open spec fn row_ok(rows: Seq<Row>, needed: int, i: int) -> bool {
    row_count_ok(rows, needed, i) && !row_repeats_name(rows, i)
}

/// Every row of the batch passes validation.
pub open spec fn rows_valid(rows: Seq<Row>, needed: int) -> bool {
    forall|i: int| 0 <= i < rows.len() ==> #[trigger] row_ok(rows, needed, i)
}

/// Row `i` is the first offending row of the batch.
pub open spec fn first_bad_row(rows: Seq<Row>, needed: int, i: int) -> bool {
    &&& 0 <= i < rows.len()
    &&& !row_ok(rows, needed, i)
    &&& forall|j: int| 0 <= j < i ==> #[trigger] row_ok(rows, needed, j)
}

/// The error reported for offending row `i`: a wrong square count is
/// reported before a repeated name, and either carries the offending row's
/// own number and name.
pub open spec fn error_reports_row(rows: Seq<Row>, needed: int, i: int, e: Error) -> bool {
    if !row_count_ok(rows, needed, i) {
        match e {
            Error::NotEnoughValidSquares { name, row, amount, needed: nd } => {
                &&& name@ == rows[i].name.text@
                &&& row == rows[i].num
                &&& amount as int == guess_squares(rows[i].guess@).len() as int
                &&& nd as int == needed
            },
            _ => false,
        }
    } else {
        match e {
            Error::DoubleGuesser { row, name } => {
                &&& row == rows[i].num
                &&& name@ == rows[i].name.text@
            },
            _ => false,
        }
    }
}

/// A well-formed player set of variant `v`: every sheet has the variant's
/// full square count, and no two players share a name.
pub open spec fn valid_player_set(players: Seq<Player>, v: Variant) -> bool {
    &&& forall|i: int| 0 <= i < players.len()
        ==> (#[trigger] players[i]).guess@.len() == square_count(v)
    &&& distinct_names(players)
}

/// Every score far enough from the `i32` limits that one play cannot
/// overflow it.
pub open spec fn scores_in_range(players: Seq<Player>, v: Variant) -> bool {
    forall|i: int| 0 <= i < players.len()
        ==> i32::MIN + board_total(v) <= (#[trigger] players[i]).score <= i32::MAX - board_total(v)
}

/// The player as one play of `key` leaves it: the play's points added onto
/// the score it had, everything else untouched.
pub open spec fn scored_player(p: Player, key: Seq<Square>, v: Variant) -> Player {
    Player { score: (p.score + play_points(v, p.guess@, key)) as i32, ..p }
}

/// Scoring accumulates: a play moves the score by its delta on top of
/// whatever the score already held, so applying the same key twice adds the
/// same delta twice over the starting score. Scoring is therefore additive,
/// not idempotent: whenever the key's delta is nonzero, re-running the same
/// play changes the score again.
pub proof fn lemma_scoring_accumulates(p: Player, key: Seq<Square>, v: Variant)
    requires
        i32::MIN + 2 * board_total(v) <= p.score <= i32::MAX - 2 * board_total(v),
    ensures
        scored_player(scored_player(p, key, v), key, v).score == p.score + 2 * play_points(
            v,
            p.guess@,
            key,
        ),
        play_points(v, p.guess@, key) != 0 ==> scored_player(p, key, v).score != p.score,
{
    lemma_play_points_bounded(v, p.guess@, key);
    lemma_weight_sum_nonneg(v, square_count(v));
}

/// Builds the validated players of one batch of rows: fail-fast on the
/// first row whose guess has the wrong square count or whose name repeats
/// an accepted row's.
fn players_from_rows(rows: &[Row], v: Variant) -> (r: Result<Vec<Player>, Error>)
    ensures
        (r is Ok) == rows_valid(rows@, square_count(v)),
        r matches Ok(players) ==> players_match_rows(players@, rows@) && valid_player_set(
            players@,
            v,
        ),
        r matches Err(e) ==> exists|i: int|
            #[trigger] first_bad_row(rows@, square_count(v), i) && error_reports_row(
                rows@,
                square_count(v),
                i,
                e,
            ),
{
    let needed = crate::board::squares_of(v);
    let n = rows.len();
    let mut players: Vec<Player> = Vec::new();
    let mut idx: usize = 0;
    while idx < n
        invariant
            n == rows@.len(),
            idx <= n,
            needed == square_count(v),
            players_match_rows(players@, rows@.take(idx as int)),
            forall|j: int| 0 <= j < idx ==> #[trigger] row_ok(rows@, square_count(v), j),
        decreases n - idx,
    {
        let ghost ii = idx as int;
        let row = &rows[idx];
        let guess = Guess::parse(row.guess());
        let amount = guess.len();
        if amount != needed {
            proof {
                assert(first_bad_row(rows@, square_count(v), ii));
            }
            return Err(Error::NotEnoughValidSquares {
                name: row.name.text.clone(),
                row: row.num,
                amount,
                needed,
            });
        }
        let np = players.len();
        let mut k: usize = 0;
        while k < np
            invariant
                np == players@.len(),
                k <= np,
                idx < n == rows@.len(),
                players_match_rows(players@, rows@.take(idx as int)),
                row_count_ok(rows@, square_count(v), idx as int),
                forall|j: int| 0 <= j < idx ==> #[trigger] row_ok(rows@, square_count(v), j),
                forall|m: int| 0 <= m < k ==> players@[m].name@ != rows@[idx as int].name.text@,
            decreases np - k,
        {
            if players[k].name == rows[idx].name.text {
                proof {
                    let kk = k as int;
                    let jj = idx as int;
                    assert(player_matches_row(players@[kk], rows@.take(jj)[kk]));
                    assert(rows@.take(jj)[kk] == rows@[kk]);
                    assert(players@[kk].name@ == rows@[kk].name.text@);
                    assert(players@[kk].name@ == rows@[jj].name.text@);
                    assert(0 <= kk < jj && rows@[kk].name.text@ == rows@[jj].name.text@);
                    assert(row_repeats_name(rows@, jj));
                    assert(first_bad_row(rows@, square_count(v), jj));
                }
                return Err(Error::DoubleGuesser { row: rows[idx].num, name: rows[idx].name.text.clone() });
            }
            proof {
                let kk = k as int;
                let jj = idx as int;
                assert(player_matches_row(players@[kk], rows@.take(jj)[kk]));
                assert(rows@.take(jj)[kk] == rows@[kk]);
                assert(players@[kk].name@ == rows@[kk].name.text@);
            }
            k += 1;
        }
        proof {
            // No accepted player shares the row's name, so no earlier row does.
            assert(!row_repeats_name(rows@, ii)) by {
                if row_repeats_name(rows@, ii) {
                    let j = choose|j: int|
                        0 <= j < ii && rows@[j].name.text@ == rows@[ii].name.text@;
                    assert(player_matches_row(players@[j], rows@.take(ii)[j]));
                    assert(rows@.take(ii)[j] == rows@[j]);
                    assert(players@[j].name@ == rows@[ii].name.text@);
                }
            }
            assert(row_ok(rows@, square_count(v), ii));
        }
        let player = Player {
            name: row.name.text.clone(),
            color: row.name.color.clone(),
            guess,
            score: row.starting_score,
            row: row.num,
        };
        players.push(player);
        proof {
            assert(rows@.take(ii + 1).drop_last() =~= rows@.take(ii));
            assert(rows@.take(ii + 1)[ii] == rows@[ii]);
        }
        idx += 1;
    }
    proof {
        assert(rows@.take(n as int) =~= rows@);
        assert(players_match_rows(players@, rows@));
        assert(distinct_names(players@)) by {
            assert forall|i: int, j: int| 0 <= i < j < players@.len() implies players@[i].name@
                != players@[j].name@ by {
                assert(row_ok(rows@, square_count(v), j));
                assert(player_matches_row(players@[i], rows@[i]));
                assert(player_matches_row(players@[j], rows@[j]));
                assert(!row_repeats_name(rows@, j));
                assert(rows@[i].name.text@ != rows@[j].name.text@);
            }
        }
        assert forall|i: int| 0 <= i < players@.len() implies (#[trigger] players@[i]).guess@.len()
            == square_count(v) by {
            assert(row_ok(rows@, square_count(v), i));
            assert(player_matches_row(players@[i], rows@[i]));
        }
    }
    Ok(players)
}

/// Scores every player against the key and re-sorts the whole set into
/// leaderboard order.
fn play_key(players: &mut Vec<Player>, key: &Key, v: Variant)
    requires
        valid_player_set(old(players)@, v),
        scores_in_range(old(players)@, v),
    ensures
        final(players)@.to_multiset() == old(players)@.map_values(
            |p: Player| scored_player(p, key@, v),
        ).to_multiset(),
        final(players)@.len() == old(players)@.len(),
        ranked(final(players)@),
        valid_player_set(final(players)@, v),
{
    let ghost s0 = players@;
    let ghost target = s0.map_values(|p: Player| scored_player(p, key@, v));
    let n = players.len();
    let mut idx: usize = 0;
    while idx < n
        invariant
            players@.len() == n,
            s0.len() == n,
            idx <= n,
            valid_player_set(s0, v),
            scores_in_range(s0, v),
            forall|k: int| idx <= k < n ==> players@[k] == s0[k],
            forall|k: int| 0 <= k < idx ==> players@[k] == scored_player(s0[k], key@, v),
        decreases n - idx,
    {
        proof {
            lemma_play_points_bounded(v, s0[idx as int].guess@, key@);
            lemma_weight_sum_nonneg(v, square_count(v));
        }
        let delta = play_score(v, players[idx].guess.as_squares(), key.as_squares());
        let new_score = players[idx].score + delta;
        players[idx].score = new_score;
        idx += 1;
    }
    proof {
        assert(players@ =~= target);
        assert(distinct_names(target)) by {
            assert forall|i: int, j: int| 0 <= i < j < target.len() implies target[i].name@
                != target[j].name@ by {
                assert(target[i] == scored_player(s0[i], key@, v));
                assert(target[j] == scored_player(s0[j], key@, v));
            }
        }
        assert(valid_player_set(target, v)) by {
            assert forall|i: int| 0 <= i < target.len() implies (#[trigger] target[i]).guess@.len()
                == square_count(v) by {
                assert(target[i] == scored_player(s0[i], key@, v));
            }
        }
    }
    rank_players(players);
    proof {
        broadcast use vstd::seq_lib::group_to_multiset_ensures;

        lemma_distinct_names_permutation(target, players@);
        assert forall|i: int| 0 <= i < players@.len() implies (#[trigger] players@[i]).guess@.len()
            == square_count(v) by {
            let x = players@[i];
            assert(players@.contains(x));
            assert(players@.to_multiset().count(x) > 0);
            assert(target.to_multiset().count(x) > 0);
            assert(target.contains(x));
            let k = choose|k: int| 0 <= k < target.len() && target[k] == x;
            assert(target[k].guess@.len() == square_count(v));
        }
    }
}

/// The Normal variant: 12 squares in 3 rows of 4 with a double-weight
/// bonus column.
#[derive(Debug)]
pub struct Normal {
    players: Vec<Player>,
}

/// The GreatWar variant: an 8x8 grid of cycling weights plus 14 bonus
/// squares, 78 in all.
#[derive(Debug)]
pub struct GreatWar {
    players: Vec<Player>,
}

impl View for Normal {
    type V = Seq<Player>;

    closed spec fn view(&self) -> Seq<Player> {
        self.players@
    }
}

impl View for GreatWar {
    type V = Seq<Player>;

    closed spec fn view(&self) -> Seq<Player> {
        self.players@
    }
}

impl Normal {
    /// Every sheet holds 12 squares and no name repeats.
    pub open spec fn wf(&self) -> bool {
        valid_player_set(self@, Variant::Normal)
    }

    /// Builds the Normal game's players from raw rows, fail-fast on the
    /// first invalid row.
    pub fn from_rows(rows: &[Row]) -> (r: Result<Normal, Error>)
        ensures
            (r is Ok) == rows_valid(rows@, square_count(Variant::Normal)),
            r matches Ok(g) ==> g.wf() && players_match_rows(g@, rows@),
            r matches Err(e) ==> exists|i: int|
                #[trigger] first_bad_row(rows@, square_count(Variant::Normal), i)
                    && error_reports_row(rows@, square_count(Variant::Normal), i, e),
    {
        match players_from_rows(rows, Variant::Normal) {
            Ok(players) => Ok(Normal { players }),
            Err(e) => Err(e),
        }
    }

    /// The players, in their current order.
    pub fn players(&self) -> (r: &[Player])
        ensures
            r@ == self@,
    {
        self.players.as_slice()
    }

    /// Scores every player against `key` and re-sorts the set into
    /// leaderboard order.
    pub fn play(&mut self, key: &Key)
        requires
            old(self).wf(),
            scores_in_range(old(self)@, Variant::Normal),
        ensures
            final(self)@.to_multiset() == old(self)@.map_values(
                |p: Player| scored_player(p, key@, Variant::Normal),
            ).to_multiset(),
            final(self)@.len() == old(self)@.len(),
            ranked(final(self)@),
            final(self).wf(),
    {
        play_key(&mut self.players, key, Variant::Normal)
    }
}

impl GreatWar {
    /// Every sheet holds 78 squares and no name repeats.
    pub open spec fn wf(&self) -> bool {
        valid_player_set(self@, Variant::GreatWar)
    }

    /// Builds the GreatWar game's players from raw rows, fail-fast on the
    /// first invalid row.
    pub fn from_rows(rows: &[Row]) -> (r: Result<GreatWar, Error>)
        ensures
            (r is Ok) == rows_valid(rows@, square_count(Variant::GreatWar)),
            r matches Ok(g) ==> g.wf() && players_match_rows(g@, rows@),
            r matches Err(e) ==> exists|i: int|
                #[trigger] first_bad_row(rows@, square_count(Variant::GreatWar), i)
                    && error_reports_row(rows@, square_count(Variant::GreatWar), i, e),
    {
        match players_from_rows(rows, Variant::GreatWar) {
            Ok(players) => Ok(GreatWar { players }),
            Err(e) => Err(e),
        }
    }

    /// The players, in their current order.
    pub fn players(&self) -> (r: &[Player])
        ensures
            r@ == self@,
    {
        self.players.as_slice()
    }

    /// Scores every player against `key` and re-sorts the set into
    /// leaderboard order.
    pub fn play(&mut self, key: &Key)
        requires
            old(self).wf(),
            scores_in_range(old(self)@, Variant::GreatWar),
        ensures
            final(self)@.to_multiset() == old(self)@.map_values(
                |p: Player| scored_player(p, key@, Variant::GreatWar),
            ).to_multiset(),
            final(self)@.len() == old(self)@.len(),
            ranked(final(self)@),
            final(self).wf(),
    {
        play_key(&mut self.players, key, Variant::GreatWar)
    }
}

} // verus!
