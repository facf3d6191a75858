//! Statistics over the roll history: per roll and in aggregate, the
//! count, sum, highest and lowest outcome. An empty roll or an empty
//! history reports zeroes instead of failing.

use vstd::prelude::*;

verus! {

/// The sum of a sequence of outcomes; 0 for the empty sequence.
pub open spec fn sum_of(s: Seq<i32>) -> int
    decreases s.len(),
{
    if s.len() == 0 {
        0
    } else {
        sum_of(s.drop_last()) + s.last()
    }
}

/// The largest value in a sequence of outcomes; 0 for the empty sequence.
pub open spec fn max_of(s: Seq<i32>) -> int
    decreases s.len(),
{
    if s.len() == 0 {
        0
    } else if s.len() == 1 {
        s.last() as int
    } else {
        let m = max_of(s.drop_last());
        if s.last() > m {
            s.last() as int
        } else {
            m
        }
    }
}

/// The smallest value in a sequence of outcomes; 0 for the empty sequence.
pub open spec fn min_of(s: Seq<i32>) -> int
    decreases s.len(),
{
    if s.len() == 0 {
        0
    } else if s.len() == 1 {
        s.last() as int
    } else {
        let m = min_of(s.drop_last());
        if s.last() < m {
            s.last() as int
        } else {
            m
        }
    }
}

/// All outcomes of a history, flattened into one sequence in roll order.
pub open spec fn flat(h: Seq<Seq<i32>>) -> Seq<i32>
    decreases h.len(),
{
    if h.len() == 0 {
        Seq::empty()
    } else {
        flat(h.drop_last()) + h.last()
    }
}

/// The sum of the per-roll sums of a history.
pub open spec fn spec_total(h: Seq<Seq<i32>>) -> int
    decreases h.len(),
{
    if h.len() == 0 {
        0
    } else {
        spec_total(h.drop_last()) + sum_of(h.last())
    }
}

/// The largest of the per-roll maxima of a history; 0 when the history
/// is empty.
pub open spec fn spec_highest(h: Seq<Seq<i32>>) -> int
    decreases h.len(),
{
    if h.len() == 0 {
        0
    } else if h.len() == 1 {
        max_of(h.last())
    } else {
        let m = spec_highest(h.drop_last());
        if max_of(h.last()) > m {
            max_of(h.last())
        } else {
            m
        }
    }
}

/// The smallest of the per-roll minima of a history; 0 when the history
/// is empty.
pub open spec fn spec_lowest(h: Seq<Seq<i32>>) -> int
    decreases h.len(),
{
    if h.len() == 0 {
        0
    } else if h.len() == 1 {
        min_of(h.last())
    } else {
        let m = spec_lowest(h.drop_last());
        if min_of(h.last()) < m {
            min_of(h.last())
        } else {
            m
        }
    }
}

/// Every outcome of every roll of the history lies in 1..=6.
pub open spec fn valid_history(h: Seq<Seq<i32>>) -> bool {
    forall|i: int, j: int|
        0 <= i < h.len() && 0 <= j < h[i].len() ==> 1 <= #[trigger] h[i][j] <= 6
}

/// The sum of a sequence is bounded by its length times the extreme
/// `i32` values.
pub proof fn lemma_sum_bounds(s: Seq<i32>)
    ensures
        -(s.len() as int) * 0x8000_0000 <= sum_of(s) <= (s.len() as int) * 0x7fff_ffff,
    decreases s.len(),
{
    if s.len() > 0 {
        lemma_sum_bounds(s.drop_last());
    }
}

/// Summing distributes over concatenation.
pub proof fn lemma_sum_append(a: Seq<i32>, b: Seq<i32>)
    ensures
        sum_of(a + b) == sum_of(a) + sum_of(b),
    decreases b.len(),
{
    if b.len() == 0 {
        assert(a + b =~= a);
    } else {
        assert((a + b).drop_last() =~= a + b.drop_last());
        lemma_sum_append(a, b.drop_last());
    }
}

/// How the maximum of a concatenation follows from the maxima of the
/// parts.
pub proof fn lemma_max_append(a: Seq<i32>, b: Seq<i32>)
    ensures
        b.len() == 0 ==> max_of(a + b) == max_of(a),
        a.len() == 0 ==> max_of(a + b) == max_of(b),
        a.len() > 0 && b.len() > 0 ==> max_of(a + b) == (if max_of(b) > max_of(a) {
            max_of(b)
        } else {
            max_of(a)
        }),
    decreases b.len(),
{
    if b.len() == 0 {
        assert(a + b =~= a);
    } else if a.len() == 0 {
        assert(a + b =~= b);
    } else {
        assert((a + b).drop_last() =~= a + b.drop_last());
        lemma_max_append(a, b.drop_last());
    }
}

/// How the minimum of a concatenation follows from the minima of the
/// parts.
pub proof fn lemma_min_append(a: Seq<i32>, b: Seq<i32>)
    ensures
        b.len() == 0 ==> min_of(a + b) == min_of(a),
        a.len() == 0 ==> min_of(a + b) == min_of(b),
        a.len() > 0 && b.len() > 0 ==> min_of(a + b) == (if min_of(b) < min_of(a) {
            min_of(b)
        } else {
            min_of(a)
        }),
    decreases b.len(),
{
    if b.len() == 0 {
        assert(a + b =~= a);
    } else if a.len() == 0 {
        assert(a + b =~= b);
    } else {
        assert((a + b).drop_last() =~= a + b.drop_last());
        lemma_min_append(a, b.drop_last());
    }
}

/// Flattening distributes over concatenation of histories.
pub proof fn lemma_flat_append(a: Seq<Seq<i32>>, b: Seq<Seq<i32>>)
    ensures
        flat(a + b) =~= flat(a) + flat(b),
    decreases b.len(),
{
    if b.len() == 0 {
        assert(a + b =~= a);
        assert(flat(a) + flat(b) =~= flat(a));
    } else {
        assert((a + b).drop_last() =~= a + b.drop_last());
        lemma_flat_append(a, b.drop_last());
    }
}

/// A prefix of the history contributes no more flattened outcomes than
/// the whole history.
pub proof fn lemma_flat_take_len(h: Seq<Seq<i32>>, i: int)
    requires
        0 <= i <= h.len(),
    ensures
        flat(h.take(i)).len() <= flat(h).len(),
{
    assert(h =~= h.take(i) + h.skip(i));
    lemma_flat_append(h.take(i), h.skip(i));
}

/// The aggregate sum over all outcomes equals the sum of the per-roll
/// sums.
pub proof fn lemma_aggregate_sum(h: Seq<Seq<i32>>)
    ensures
        sum_of(flat(h)) == spec_total(h),
    decreases h.len(),
{
    if h.len() > 0 {
        lemma_aggregate_sum(h.drop_last());
        lemma_sum_append(flat(h.drop_last()), h.last());
    }
}

/// The largest value in a non-empty sequence of valid outcomes lies in
/// 1..=6 itself.
pub proof fn lemma_max_of_range(s: Seq<i32>)
    requires
        forall|j: int| 0 <= j < s.len() ==> 1 <= #[trigger] s[j] <= 6,
    ensures
        s.len() > 0 ==> 1 <= max_of(s) <= 6,
        max_of(s) >= 0,
    decreases s.len(),
{
    if s.len() > 1 {
        lemma_max_of_range(s.drop_last());
    }
}

/// The aggregate maximum over all outcomes of a valid history equals the
/// largest of the per-roll maxima. An empty roll contributes a maximum
/// of 0, which no valid outcome falls below.
pub proof fn lemma_aggregate_max(h: Seq<Seq<i32>>)
    requires
        valid_history(h),
    ensures
        max_of(flat(h)) == spec_highest(h),
        spec_highest(h) >= 0,
    decreases h.len(),
{
    if h.len() > 0 {
        assert(valid_history(h.drop_last())) by {
            assert(forall|i: int, j: int|
                0 <= i < h.drop_last().len() && 0 <= j < h.drop_last()[i].len()
                    ==> h.drop_last()[i] == h[i] && 1 <= #[trigger] h.drop_last()[i][j] <= 6);
        }
        lemma_aggregate_max(h.drop_last());
        assert(forall|j: int| 0 <= j < h.last().len() ==> 1 <= #[trigger] h.last()[j] <= 6);
        lemma_max_of_range(h.last());
        lemma_max_append(flat(h.drop_last()), h.last());
        if h.len() == 1 {
            assert(flat(h.drop_last()) =~= Seq::empty());
        }
    }
}

/// For a valid history in which every roll holds at least one die, the
/// aggregate minimum over all outcomes equals the smallest of the
/// per-roll minima.
pub proof fn lemma_aggregate_min(h: Seq<Seq<i32>>)
    requires
        valid_history(h),
        forall|i: int| 0 <= i < h.len() ==> #[trigger] h[i].len() > 0,
    ensures
        min_of(flat(h)) == spec_lowest(h),
        h.len() > 0 ==> flat(h).len() > 0,
    decreases h.len(),
{
    if h.len() > 0 {
        assert(valid_history(h.drop_last())) by {
            assert(forall|i: int, j: int|
                0 <= i < h.drop_last().len() && 0 <= j < h.drop_last()[i].len()
                    ==> h.drop_last()[i] == h[i] && 1 <= #[trigger] h.drop_last()[i][j] <= 6);
        }
        lemma_aggregate_min(h.drop_last());
        lemma_min_append(flat(h.drop_last()), h.last());
        if h.len() == 1 {
            assert(flat(h.drop_last()) =~= Seq::empty());
        }
    }
}

/// The statistics of one roll: how many dice, their sum, and the
/// highest and lowest outcome among them. An empty roll reports zeroes.
pub struct RollStats {
    /// How many dice the roll held.
    pub count: usize,
    /// The sum of the roll's outcomes.
    pub total: i128,
    /// The largest outcome of the roll; 0 if the roll held no dice.
    pub highest: i32,
    /// The smallest outcome of the roll; 0 if the roll held no dice.
    pub lowest: i32,
}

/// Compute the statistics of a single roll.
pub fn roll_stats(outcomes: &Vec<i32>) -> (s: RollStats)
    ensures
        s.count == outcomes@.len(),
        s.total == sum_of(outcomes@),
        s.highest == max_of(outcomes@),
        s.lowest == min_of(outcomes@),
{
    let n = outcomes.len();
    let mut total: i128 = 0;
    let mut highest: i32 = 0;
    let mut lowest: i32 = 0;
    if n > 0 {
        highest = outcomes[0];
        lowest = outcomes[0];
    }
    let mut j: usize = 0;
    while j < n
        invariant
            j <= n,
            n == outcomes@.len(),
            total == sum_of(outcomes@.take(j as int)),
            highest == (if j == 0 {
                if n == 0 {
                    0int
                } else {
                    outcomes@[0] as int
                }
            } else {
                max_of(outcomes@.take(j as int))
            }),
            lowest == (if j == 0 {
                if n == 0 {
                    0int
                } else {
                    outcomes@[0] as int
                }
            } else {
                min_of(outcomes@.take(j as int))
            }),
        decreases n - j,
    {
        proof {
            assert(outcomes@.take(j + 1).drop_last() =~= outcomes@.take(j as int));
            assert(outcomes@.take(j + 1).last() == outcomes@[j as int]);
            lemma_sum_bounds(outcomes@.take(j as int));
        }
        let x = outcomes[j];
        total = total + x as i128;
        if x > highest {
            highest = x;
        }
        if x < lowest {
            lowest = x;
        }
        j += 1;
    }
    proof {
        assert(outcomes@.take(n as int) =~= outcomes@);
    }
    RollStats { count: n, total, highest, lowest }
}

/// The final report: one entry of statistics per roll, and aggregate
/// statistics over every outcome of the whole history.
pub struct Report {
    /// Per-roll statistics, in roll order.
    pub per_roll: Vec<RollStats>,
    /// How many dice were rolled over the whole session.
    pub total_dice: usize,
    /// The sum of every outcome of the session.
    pub total_sum: i128,
    /// The largest outcome of the session; 0 if no dice were rolled.
    pub highest: i32,
    /// The smallest outcome of the session; 0 if no dice were rolled.
    pub lowest: i32,
}

/// Compute the full report over a history of rolls. The aggregate
/// fields range over the flattened history, so an empty history (or one
/// of only empty rolls) reports zero dice, sum 0, highest 0, lowest 0
/// rather than failing.
pub fn compute_report(history: &Vec<Vec<i32>>) -> (r: Report)
    requires
        flat(history.deep_view()).len() <= usize::MAX,
    ensures
        r.per_roll@.len() == history@.len(),
        forall|i: int|
            0 <= i < history@.len() ==> {
                &&& (#[trigger] r.per_roll@[i]).count == history.deep_view()[i].len()
                &&& r.per_roll@[i].total == sum_of(history.deep_view()[i])
                &&& r.per_roll@[i].highest == max_of(history.deep_view()[i])
                &&& r.per_roll@[i].lowest == min_of(history.deep_view()[i])
            },
        r.total_dice == flat(history.deep_view()).len(),
        r.total_sum == sum_of(flat(history.deep_view())),
        r.highest == max_of(flat(history.deep_view())),
        r.lowest == min_of(flat(history.deep_view())),
{
    let ghost dv = history.deep_view();
    let n = history.len();
    let mut per_roll: Vec<RollStats> = Vec::new();
    let mut total_dice: usize = 0;
    let mut total_sum: i128 = 0;
    let mut highest: i32 = 0;
    let mut lowest: i32 = 0;
    let mut i: usize = 0;
    while i < n
        invariant
            i <= n,
            n == history@.len(),
            dv == history.deep_view(),
            dv.len() == n,
            forall|k: int| 0 <= k < n ==> #[trigger] dv[k] == history@[k]@,
            flat(dv).len() <= usize::MAX,
            per_roll@.len() == i,
            forall|k: int|
                0 <= k < i ==> {
                    &&& (#[trigger] per_roll@[k]).count == dv[k].len()
                    &&& per_roll@[k].total == sum_of(dv[k])
                    &&& per_roll@[k].highest == max_of(dv[k])
                    &&& per_roll@[k].lowest == min_of(dv[k])
                },
            total_dice == flat(dv.take(i as int)).len(),
            total_sum == sum_of(flat(dv.take(i as int))),
            highest == max_of(flat(dv.take(i as int))),
            lowest == min_of(flat(dv.take(i as int))),
        decreases n - i,
    {
        let stats = roll_stats(&history[i]);
        proof {
            assert(dv.take(i + 1).drop_last() =~= dv.take(i as int));
            assert(dv.take(i + 1).last() == dv[i as int]);
            assert(flat(dv.take(i + 1)) =~= flat(dv.take(i as int)) + dv[i as int]);
            lemma_flat_take_len(dv, i + 1);
            lemma_sum_append(flat(dv.take(i as int)), dv[i as int]);
            lemma_sum_bounds(flat(dv.take(i + 1)));
            lemma_sum_bounds(flat(dv.take(i as int)));
            lemma_max_append(flat(dv.take(i as int)), dv[i as int]);
            lemma_min_append(flat(dv.take(i as int)), dv[i as int]);
        }
        if stats.count > 0 {
            if total_dice == 0 {
                highest = stats.highest;
                lowest = stats.lowest;
            } else {
                if stats.highest > highest {
                    highest = stats.highest;
                }
                if stats.lowest < lowest {
                    lowest = stats.lowest;
                }
            }
        }
        total_dice = total_dice + stats.count;
        total_sum = total_sum + stats.total;
        per_roll.push(stats);
        i += 1;
    }
    proof {
        assert(dv.take(n as int) =~= dv);
    }
    Report { per_roll, total_dice, total_sum, highest, lowest }
}

} // verus!
