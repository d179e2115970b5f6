//! Per-variant point-weight boards.
//!
//! A board is a fixed ordered table of positive integer weights, one per
//! square position. The tables are compile-time data of the variant, never
//! runtime configuration.

use vstd::prelude::*;

verus! {

/// A named ruleset: it fixes the square count and the weight board.
#[derive(Debug, Clone, Copy, PartialEq, Eq, Structural)]
pub enum Variant {
    /// 12 squares in 3 rows of 4, with a double-weight bonus column.
    Normal,
    /// 78 squares: an 8x8 grid cycling three weights, plus 14 bonus squares.
    GreatWar,
}

/// The number of squares a variant requires of every guess.
pub open spec fn square_count(v: Variant) -> int {
    match v {
        Variant::Normal => 12,
        Variant::GreatWar => 78,
    }
}

/// The Normal board: rows 0/1/2 carry base weight 10/30/50, and the fourth
/// column of each row (position 3 mod 4) carries double the row's base.
pub open spec fn normal_weight(i: int) -> int {
    let base = if i < 4 {
        10
    } else if i < 8 {
        30
    } else {
        50
    };
    if i % 4 == 3 {
        2 * base
    } else {
        base
    }
}

/// The GreatWar board: on the 8x8 grid (row `r`, column `c`) the weight
/// cycles through 15/30/50 starting at an offset of `(-r) mod 3`, so
/// consecutive rows open with 15, 50, 30 in turn; the remaining 14 bonus
/// squares are flat-weighted at 70.
pub open spec fn great_war_weight(i: int) -> int {
    if i < 64 {
        let r = i / 8;
        let c = i % 8;
        let t = (c + (3 - r % 3) % 3) % 3;
        if t == 0 {
            15
        } else if t == 1 {
            30
        } else {
            50
        }
    } else {
        70
    }
}

/// The weight of square position `i` under variant `v`.
pub open spec fn weight(v: Variant, i: int) -> int {
    match v {
        Variant::Normal => normal_weight(i),
        Variant::GreatWar => great_war_weight(i),
    }
}

/// The sum of the weights of positions `[0, n)` of variant `v`.
pub open spec fn weight_sum(v: Variant, n: int) -> int
    decreases n,
{
    if n <= 0 {
        0
    } else {
        weight_sum(v, n - 1) + weight(v, n - 1)
    }
}

/// The sum of a variant's whole board: the largest score a single play can
/// move a player by.
pub open spec fn board_total(v: Variant) -> int {
    weight_sum(v, square_count(v))
}

/// The Normal board sums to 450 and the GreatWar board to 2990.
#[verifier::rlimit(60)]
pub proof fn lemma_board_totals()
    ensures
        board_total(Variant::Normal) == 450,
        board_total(Variant::GreatWar) == 2990,
{
    assert(board_total(Variant::Normal) == 450) by {
        reveal_with_fuel(weight_sum, 13);
    }
    let gw = Variant::GreatWar;
    assert(weight_sum(gw, 13) == 395) by {
        reveal_with_fuel(weight_sum, 14);
    }
    assert(weight_sum(gw, 26) == 805) by {
        reveal_with_fuel(weight_sum, 14);
    }
    assert(weight_sum(gw, 39) == 1235) by {
        reveal_with_fuel(weight_sum, 14);
    }
    assert(weight_sum(gw, 52) == 1630) by {
        reveal_with_fuel(weight_sum, 14);
    }
    assert(weight_sum(gw, 64) == 2010) by {
        reveal_with_fuel(weight_sum, 13);
    }
    assert(weight_sum(gw, 78) == 2990) by {
        reveal_with_fuel(weight_sum, 15);
    }
}

/// Every weight of either board is positive and at most 100.
pub proof fn lemma_weight_bounds(v: Variant, i: int)
    ensures
        0 < weight(v, i) <= 100,
{
}

/// The number of squares a variant requires of every guess.
pub fn squares_of(v: Variant) -> (n: usize)
    ensures
        n == square_count(v),
{
    match v {
        Variant::Normal => 12,
        Variant::GreatWar => 78,
    }
}

/// The weight of square position `i` under variant `v`.
pub fn weight_of(v: Variant, i: usize) -> (w: i32)
    requires
        i < square_count(v),
    ensures
        w == weight(v, i as int),
{
    match v {
        Variant::Normal => {
            let base: i32 = if i < 4 {
                10
            } else if i < 8 {
                30
            } else {
                50
            };
            if i % 4 == 3 {
                2 * base
            } else {
                base
            }
        },
        Variant::GreatWar => {
            if i < 64 {
                let r = i / 8;
                let c = i % 8;
                let t = (c + (3 - r % 3) % 3) % 3;
                if t == 0 {
                    15
                } else if t == 1 {
                    30
                } else {
                    50
                }
            } else {
                70
            }
        },
    }
}

} // verus!
