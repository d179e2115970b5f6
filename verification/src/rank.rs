//! The leaderboard order: score descending, name ascending.
//!
//! Ties on score are broken by the entrant's name, so a player set with
//! distinct names has exactly one ranking — the leaderboard is reproducible
//! run after run.

use vstd::prelude::*;

use crate::player::Player;

verus! {

/// Lexicographic order on character sequences, by code point: the order
/// `String` comparison gives.
pub open spec fn lex_le(a: Seq<char>, b: Seq<char>) -> bool
    decreases a.len(),
{
    if a.len() == 0 {
        true
    } else if b.len() == 0 {
        false
    } else if a[0] == b[0] {
        lex_le(a.drop_first(), b.drop_first())
    } else {
        a[0] < b[0]
    }
}

/// The leaderboard order: a higher score ranks first, and equal scores rank
/// by name ascending.
pub open spec fn rank_le(a: Player, b: Player) -> bool {
    a.score > b.score || (a.score == b.score && lex_le(a.name@, b.name@))
}

/// A sequence in leaderboard order.
pub open spec fn ranked(s: Seq<Player>) -> bool {
    forall|i: int, j: int| 0 <= i < j < s.len() ==> rank_le(s[i], s[j])
}

/// No two players share a name.
pub open spec fn distinct_names(s: Seq<Player>) -> bool {
    forall|i: int, j: int| 0 <= i < j < s.len() ==> s[i].name@ != s[j].name@
}

/// Any two texts compare in at least one direction.
pub proof fn lemma_lex_le_total(a: Seq<char>, b: Seq<char>)
    ensures
        lex_le(a, b) || lex_le(b, a),
    decreases a.len(),
{
    if a.len() > 0 && b.len() > 0 && a[0] == b[0] {
        lemma_lex_le_total(a.drop_first(), b.drop_first());
    }
}

/// The lexicographic order is transitive.
pub proof fn lemma_lex_le_trans(a: Seq<char>, b: Seq<char>, c: Seq<char>)
    requires
        lex_le(a, b),
        lex_le(b, c),
    ensures
        lex_le(a, c),
    decreases a.len(),
{
    if a.len() > 0 && b.len() > 0 && c.len() > 0 && a[0] == b[0] && b[0] == c[0] {
        lemma_lex_le_trans(a.drop_first(), b.drop_first(), c.drop_first());
    }
}

/// Texts that compare in both directions are equal.
pub proof fn lemma_lex_le_antisym(a: Seq<char>, b: Seq<char>)
    requires
        lex_le(a, b),
        lex_le(b, a),
    ensures
        a == b,
    decreases a.len(),
{
    if a.len() > 0 && b.len() > 0 && a[0] == b[0] {
        lemma_lex_le_antisym(a.drop_first(), b.drop_first());
        assert(a =~= seq![a[0]] + a.drop_first());
        assert(b =~= seq![b[0]] + b.drop_first());
    }
}

/// Comparing past a common prefix compares the remainders.
proof fn lemma_lex_le_skip(a: Seq<char>, b: Seq<char>, i: int)
    requires
        0 <= i <= a.len(),
        i <= b.len(),
        forall|j: int| 0 <= j < i ==> a[j] == b[j],
    ensures
        lex_le(a, b) == lex_le(a.skip(i), b.skip(i)),
    decreases i,
{
    if i == 0 {
        assert(a.skip(0) =~= a);
        assert(b.skip(0) =~= b);
    } else {
        assert(a.len() > 0 && b.len() > 0 && a[0] == b[0]);
        assert(a.drop_first().skip(i - 1) =~= a.skip(i));
        assert(b.drop_first().skip(i - 1) =~= b.skip(i));
        lemma_lex_le_skip(a.drop_first(), b.drop_first(), i - 1);
    }
}

/// Whether `a` sorts at or before `b` in `String` order.
pub fn name_le(a: &str, b: &str) -> (r: bool)
    ensures
        r == lex_le(a@, b@),
{
    let na = a.unicode_len();
    let nb = b.unicode_len();
    let mut i: usize = 0;
    loop
        invariant
            na == a@.len(),
            nb == b@.len(),
            i <= na,
            i <= nb,
            forall|j: int| 0 <= j < i ==> a@[j] == b@[j],
        decreases na - i,
    {
        proof {
            lemma_lex_le_skip(a@, b@, i as int);
        }
        if i >= na {
            proof {
                assert(a@.skip(i as int).len() == 0);
            }
            return true;
        }
        if i >= nb {
            proof {
                assert(b@.skip(i as int).len() == 0);
                assert(a@.skip(i as int).len() > 0);
            }
            return false;
        }
        let ca = a.get_char(i);
        let cb = b.get_char(i);
        if ca != cb {
            proof {
                assert(a@.skip(i as int)[0] == ca);
                assert(b@.skip(i as int)[0] == cb);
            }
            return ca < cb;
        }
        i += 1;
    }
}

/// Whether `a` ranks at or before `b` on the leaderboard.
pub fn player_le(a: &Player, b: &Player) -> (r: bool)
    ensures
        r == rank_le(*a, *b),
{
    if a.score > b.score {
        true
    } else if a.score == b.score {
        name_le(a.name.as_str(), b.name.as_str())
    } else {
        false
    }
}

/// Inserting an element anywhere adds exactly it to the contents.
proof fn lemma_to_multiset_insert(s: Seq<Player>, j: int, a: Player)
    requires
        0 <= j <= s.len(),
    ensures
        s.insert(j, a).to_multiset() =~= s.to_multiset().insert(a),
{
    broadcast use vstd::seq_lib::group_to_multiset_ensures;
    broadcast use vstd::multiset::group_multiset_axioms;

    let t = s.insert(j, a);
    assert(t.remove(j) =~= s);
    assert(t[j] == a);
    assert(t.remove(j).to_multiset() =~= t.to_multiset().remove(a));
    assert(t.to_multiset().contains(a)) by {
        assert(t.contains(a));
    }
    assert(t.to_multiset() =~= t.to_multiset().remove(a).insert(a));
}

/// Sorts the players into leaderboard order. The result holds exactly the
/// players given, score descending with ties broken by name ascending.
pub fn rank_players(players: &mut Vec<Player>)
    ensures
        final(players)@.to_multiset() == old(players)@.to_multiset(),
        final(players)@.len() == old(players)@.len(),
        ranked(final(players)@),
{
    let n = players.len();
    let mut i: usize = 0;
    while i < n
        invariant
            players@.len() == n,
            i <= n,
            players@.to_multiset() == old(players)@.to_multiset(),
            forall|p: int, q: int| 0 <= p < q < i ==> rank_le(players@[p], players@[q]),
        decreases n - i,
    {
        let ghost s = players@;
        let mut j: usize = 0;
        while j < i && player_le(&players[j], &players[i])
            invariant
                players@ == s,
                s.len() == n,
                i < n,
                j <= i,
                forall|k: int| 0 <= k < j ==> rank_le(s[k], s[i as int]),
            decreases i - j,
        {
            j += 1;
        }
        let ghost jj = j as int;
        let ghost ii = i as int;
        proof {
            if j < i {
                lemma_rank_total(s[jj], s[ii]);
                assert(rank_le(s[ii], s[jj]));
            }
        }
        let moved = players.remove(i);
        players.insert(j, moved);
        proof {
            broadcast use vstd::seq_lib::group_to_multiset_ensures;
            broadcast use vstd::multiset::group_multiset_axioms;

            let t = players@;
            let r = s.remove(ii);
            s.remove_ensures(ii);
            r.insert_ensures(jj, moved);
            lemma_to_multiset_insert(r, jj, moved);
            assert(s.to_multiset().contains(moved)) by {
                assert(s.contains(moved));
            }
            assert(t.to_multiset() =~= s.to_multiset());
            assert(forall|k: int| 0 <= k < jj ==> #[trigger] t[k] == s[k]);
            assert(t[jj] == s[ii]);
            assert forall|k: int| jj < k <= ii implies #[trigger] t[k] == s[k - 1] by {
                assert(t[k] == r[k - 1]);
            }
            // s[ii] ranks at or after every element of the sorted prefix it
            // now precedes, and at or before every element it displaced.
            assert forall|k: int| jj <= k < ii implies rank_le(s[ii], #[trigger] s[k]) by {
                if jj < k {
                    lemma_rank_trans(s[ii], s[jj], s[k]);
                }
            }
            assert forall|p: int, q: int| 0 <= p < q <= ii implies rank_le(t[p], t[q]) by {
                if q < jj {
                    assert(rank_le(s[p], s[q]));
                } else if q == jj {
                    assert(rank_le(s[p], s[ii]));
                } else if p < jj {
                    assert(rank_le(s[p], s[q - 1]));
                } else if p == jj {
                    assert(t[p] == s[ii] && t[q] == s[q - 1]);
                    assert(rank_le(s[ii], s[q - 1]));
                } else {
                    assert(t[p] == s[p - 1] && t[q] == s[q - 1]);
                    assert(rank_le(s[p - 1], s[q - 1]));
                }
            }
        }
        i += 1;
    }
}

/// The leaderboard order compares any two players in at least one direction.
pub proof fn lemma_rank_total(a: Player, b: Player)
    ensures
        rank_le(a, b) || rank_le(b, a),
{
    lemma_lex_le_total(a.name@, b.name@);
}

/// The leaderboard order is transitive.
pub proof fn lemma_rank_trans(a: Player, b: Player, c: Player)
    requires
        rank_le(a, b),
        rank_le(b, c),
    ensures
        rank_le(a, c),
{
    if a.score == b.score && b.score == c.score {
        lemma_lex_le_trans(a.name@, b.name@, c.name@);
    }
}

/// Rearranging a player set cannot introduce a shared name: any sequence
/// holding exactly the players of a distinct-name sequence has distinct
/// names too.
pub proof fn lemma_distinct_names_permutation(s1: Seq<Player>, s2: Seq<Player>)
    requires
        distinct_names(s1),
        s1.to_multiset() == s2.to_multiset(),
    ensures
        distinct_names(s2),
{
    broadcast use vstd::seq_lib::group_to_multiset_ensures;
    broadcast use vstd::multiset::group_multiset_axioms;

    assert forall|i: int, j: int| 0 <= i < j < s2.len() implies s2[i].name@ != s2[j].name@ by {
        if s2[i].name@ == s2[j].name@ {
            if s2[i] == s2[j] {
                let r = s2.remove(i);
                s2.remove_ensures(i);
                assert(r.to_multiset() =~= s2.to_multiset().remove(s2[i]));
                assert(r[j - 1] == s2[j]);
                assert(r.contains(s2[j]));
                assert(r.to_multiset().count(s2[i]) > 0);
                assert(s2.to_multiset().count(s2[i]) >= 2);
                assert(s1.to_multiset().count(s2[i]) >= 2);
                assert(s1.to_multiset().contains(s2[i]));
                assert(s1.contains(s2[i]));
                let k1 = choose|k: int| 0 <= k < s1.len() && s1[k] == s2[i];
                let r1 = s1.remove(k1);
                s1.remove_ensures(k1);
                assert(r1.to_multiset() =~= s1.to_multiset().remove(s2[i]));
                assert(r1.to_multiset().count(s2[i]) >= 1);
                assert(r1.to_multiset().contains(s2[i]));
                assert(r1.contains(s2[i]));
                let k2 = choose|k: int| 0 <= k < r1.len() && r1[k] == s2[i];
                if k2 < k1 {
                    assert(s1[k2] == s2[i]);
                    assert(s1[k2].name@ == s1[k1].name@);
                } else {
                    assert(s1[k2 + 1] == s2[i]);
                    assert(s1[k2 + 1].name@ == s1[k1].name@);
                }
                assert(false);
            } else {
                assert(s2.to_multiset().contains(s2[i])) by {
                    assert(s2.contains(s2[i]));
                }
                assert(s2.to_multiset().contains(s2[j])) by {
                    assert(s2.contains(s2[j]));
                }
                assert(s1.contains(s2[i]));
                assert(s1.contains(s2[j]));
                let k1 = choose|k: int| 0 <= k < s1.len() && s1[k] == s2[i];
                let k2 = choose|k: int| 0 <= k < s1.len() && s1[k] == s2[j];
                assert(k1 != k2);
                assert(s1[k1].name@ == s1[k2].name@);
                assert(false);
            }
        }
    }
}

/// With distinct names the ranking is unique: two leaderboards in order
/// that hold the same players are identical, so ranking the same player set
/// against the same key reproduces the same output, run after run.
pub proof fn lemma_ranking_deterministic(x: Seq<Player>, y: Seq<Player>)
    requires
        ranked(x),
        ranked(y),
        distinct_names(x),
        x.to_multiset() == y.to_multiset(),
    ensures
        x == y,
    decreases x.len(),
{
    broadcast use vstd::seq_lib::group_to_multiset_ensures;
    broadcast use vstd::multiset::group_multiset_axioms;

    if x.len() == 0 {
        assert(y.to_multiset().len() == 0);
        assert(x =~= y);
    } else {
        assert(x.to_multiset().contains(x[0])) by {
            assert(x.contains(x[0]));
        }
        assert(y.to_multiset().contains(y[0])) by {
            assert(y.contains(y[0]));
        }
        assert(y.contains(x[0]));
        assert(x.contains(y[0]));
        let iy = choose|k: int| 0 <= k < y.len() && y[k] == x[0];
        let ix = choose|k: int| 0 <= k < x.len() && x[k] == y[0];
        assert(rank_le(y[0], y[iy]) || 0 == iy);
        assert(rank_le(x[0], x[ix]) || 0 == ix);
        assert(rank_le(y[0], x[0]) || y[0] == x[0]);
        assert(rank_le(x[0], y[0]) || x[0] == y[0]);
        if x[0] != y[0] {
            assert(x[0].score == y[0].score);
            lemma_lex_le_antisym(x[0].name@, y[0].name@);
            assert(x[0].name@ == y[0].name@);
            assert(ix != 0);
            assert(x[0].name@ != x[ix].name@);
            assert(false);
        }
        assert(x.remove(0) =~= x.drop_first());
        assert(y.remove(0) =~= y.drop_first());
        assert(x.drop_first().to_multiset() =~= x.to_multiset().remove(x[0]));
        assert(y.drop_first().to_multiset() =~= y.to_multiset().remove(y[0]));
        assert(ranked(x.drop_first()));
        assert(ranked(y.drop_first()));
        assert(distinct_names(x.drop_first()));
        lemma_ranking_deterministic(x.drop_first(), y.drop_first());
        assert(x =~= seq![x[0]] + x.drop_first());
        assert(y =~= seq![y[0]] + y.drop_first());
    }
}

} // verus!
