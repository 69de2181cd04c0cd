//! Scores of validators: their history, and their order on a leaderboard. The
//! scores themselves are measured and computed elsewhere; here a score stands as
//! a number by which scores are ordered.

use vstd::prelude::*;

verus! {

/// How many samples a history of so many hours keeps: one an hour, and at least
/// one.
pub open spec fn window(hours: int) -> int {
    if hours < 1 {
        1
    } else {
        hours
    }
}

/// The history with one more sample, of which only the latest are kept.
pub open spec fn with_sample<T>(history: Seq<T>, sample: T, hours: int) -> Seq<T> {
    let all = history.push(sample);
    if all.len() > window(hours) {
        all.subrange(all.len() - window(hours), all.len() as int)
    } else {
        all
    }
}

/// Adds a sample to a history, of which only the latest are kept.
pub fn push_sample<T>(history: Vec<T>, sample: T, history_window_hours: u32) -> (r: Vec<T>)
    ensures
        r@ == with_sample(history@, sample, history_window_hours as int),
{
    let mut all = history;
    all.push(sample);
    let max_samples: usize = if history_window_hours < 1 {
        1
    } else {
        history_window_hours as usize
    };
    if all.len() > max_samples {
        let excess: usize = all.len() - max_samples;
        let kept = all.split_off(excess);
        assert(kept@ =~= with_sample(history@, sample, history_window_hours as int));
        return kept;
    }
    all
}

/// The latest sample is always kept, and never more than the window holds.
pub proof fn law_history_is_bounded<T>(history: Seq<T>, sample: T, hours: int)
    ensures
        with_sample(history, sample, hours).len() > 0,
        with_sample(history, sample, hours).len() <= window(hours),
        with_sample(history, sample, hours).last() == sample,
{
}

/// Whether an entry stands before another: it has the higher score, or the same
/// and came first.
pub open spec fn stands_before(scores: Seq<i64>, a: int, b: int) -> bool {
    scores[a] > scores[b] || (scores[a] == scores[b] && a < b)
}

/// The order of a leaderboard: the entries by their place in `scores`, the best
/// first, as many as there may be.
pub open spec fn is_leaderboard(order: Seq<usize>, scores: Seq<i64>, top_n: int) -> bool {
    &&& order.len() == if top_n < scores.len() {
        top_n
    } else {
        scores.len() as int
    }
    &&& forall|i: int| 0 <= i < order.len() ==> #[trigger] order[i] < scores.len()
    &&& forall|i: int, j: int|
        0 <= i < j < order.len() ==> stands_before(
            scores,
            #[trigger] order[i] as int,
            #[trigger] order[j] as int,
        )
    &&& forall|k: int, i: int|
        0 <= k < scores.len() && !order.contains(k as usize) && 0 <= i < order.len()
            ==> #[trigger] stands_before(scores, order[i] as int, k)
}

/// Puts scores in order, the best first, and keeps as many as there may be.
pub fn leaderboard_order(scores: &Vec<i64>, top_n: usize) -> (r: Vec<usize>)
    ensures
        is_leaderboard(r@, scores@, top_n as int),
{
    let mut order: Vec<usize> = Vec::new();
    let mut m: usize = 0;
    while m < scores.len()
        invariant
            m <= scores.len(),
            order@.len() == m,
            forall|i: int| 0 <= i < order@.len() ==> #[trigger] order@[i] < m,
            forall|i: int, j: int|
                0 <= i < j < order@.len() ==> stands_before(
                    scores@,
                    #[trigger] order@[i] as int,
                    #[trigger] order@[j] as int,
                ),
            forall|k: int| 0 <= k < m ==> #[trigger] order@.contains(k as usize),
        decreases scores@.len() - m,
    {
        let s: i64 = scores[m];
        let mut p: usize = 0;
        while p < order.len() && scores[order[p]] >= s
            invariant
                p <= order.len(),
                m < scores.len(),
                s == scores@[m as int],
                forall|i: int| 0 <= i < order@.len() ==> #[trigger] order@[i] < m,
                forall|i: int| 0 <= i < p ==> scores@[#[trigger] order@[i] as int] >= s,
            decreases order@.len() - p,
        {
            p = p + 1;
        }
        let ghost before = order@;
        order.insert(p, m);
        proof {
            assert forall|i: int, j: int| 0 <= i < j < order@.len() implies stands_before(
                scores@,
                #[trigger] order@[i] as int,
                #[trigger] order@[j] as int,
            ) by {
                if i < p && j < p {
                    assert(order@[i] == before[i] && order@[j] == before[j]);
                } else if i < p && j == p {
                    assert(order@[i] == before[i]);
                } else if i < p {
                    assert(order@[i] == before[i] && order@[j] == before[j - 1]);
                } else if i == p {
                    assert(order@[j] == before[j - 1]);
                    if j - 1 > p {
                        assert(stands_before(scores@, before[p as int] as int, before[j - 1] as int));
                    }
                } else {
                    assert(order@[i] == before[i - 1] && order@[j] == before[j - 1]);
                }
            }
            assert forall|k: int| 0 <= k < m + 1 implies #[trigger] order@.contains(k as usize) by {
                if k < m {
                    assert(before.contains(k as usize));
                    let i = choose|i: int| 0 <= i < before.len() && before[i] == k as usize;
                    if i < p {
                        assert(order@[i] == before[i]);
                    } else {
                        assert(order@[i + 1] == before[i]);
                    }
                } else {
                    assert(order@[p as int] == m);
                }
            }
        }
        m = m + 1;
    }
    let ghost full = order@;
    if order.len() > top_n {
        let _ = order.split_off(top_n);
        proof {
            assert(order@ =~= full.subrange(0, top_n as int));
            assert forall|k: int, i: int|
                0 <= k < scores@.len() && !order@.contains(k as usize) && 0 <= i
                    < order@.len() implies #[trigger] stands_before(
                scores@,
                order@[i] as int,
                k,
            ) by {
                assert(full.contains(k as usize));
                let q = choose|q: int| 0 <= q < full.len() && full[q] == k as usize;
                if q < top_n {
                    assert(order@[q] == k as usize);
                }
                assert(stands_before(scores@, full[i] as int, full[q] as int));
            }
        }
    }
    order
}

/// What a leaderboard says of all validators, those that it does not list among
/// them.
#[derive(Clone, Copy, Debug)]
pub struct LeaderboardSummary {
    /// How many validators have a score.
    pub total: usize,
    /// The place in the scores of the median, where there are any.
    pub median: Option<usize>,
}

/// The entry at a place stands in the middle of all, half of them before it.
pub open spec fn is_median(scores: Seq<i64>, place: int) -> bool {
    exists|order: Seq<usize>| #[trigger]
        is_leaderboard(order, scores, scores.len() as int) && order[scores.len() as int / 2]
            == place
}

/// Counts all scores and finds their median.
pub fn summarize_scores(scores: &Vec<i64>) -> (r: LeaderboardSummary)
    ensures
        r.total == scores@.len(),
        r.median is Some <==> scores@.len() > 0,
        r.median is Some ==> r.median->0 < scores@.len() && is_median(
            scores@,
            r.median->0 as int,
        ),
{
    let n: usize = scores.len();
    if n == 0 {
        return LeaderboardSummary { total: 0, median: None };
    }
    let order = leaderboard_order(scores, n);
    let middle: usize = order[n / 2];
    assert(is_leaderboard(order@, scores@, n as int));
    LeaderboardSummary { total: n, median: Some(middle) }
}

/// Of all scores, those before the median are not lower, and those behind it not
/// higher.
pub proof fn law_median_is_in_the_middle(scores: Seq<i64>, order: Seq<usize>, i: int)
    requires
        is_leaderboard(order, scores, scores.len() as int),
        0 <= i < scores.len(),
    ensures
        i <= scores.len() as int / 2 ==> scores[order[i] as int] >= scores[order[scores.len() as int
            / 2] as int],
        i >= scores.len() as int / 2 ==> scores[order[i] as int] <= scores[order[scores.len() as int
            / 2] as int],
{
    let m = scores.len() as int / 2;
    if i < m {
        assert(stands_before(scores, order[i] as int, order[m] as int));
    } else if i > m {
        assert(stands_before(scores, order[m] as int, order[i] as int));
    }
}

/// No entry of a leaderboard has a higher score than one that stands before it.
pub proof fn law_leaderboard_descends(
    order: Seq<usize>,
    scores: Seq<i64>,
    top_n: int,
    i: int,
    j: int,
)
    requires
        is_leaderboard(order, scores, top_n),
        0 <= i < j < order.len(),
    ensures
        scores[order[i] as int] >= scores[order[j] as int],
        order[i] != order[j],
{
    assert(stands_before(scores, order[i] as int, order[j] as int));
}

/// Whether a validator is in step with the network, by what its status says.
pub open spec fn in_step(sync_state: Option<Seq<char>>) -> bool {
    sync_state == Some("Synced"@)
}

/// Whether a validator is in step with the network, by what its status says.
pub fn is_synced(sync_state: &Option<String>) -> (r: bool)
    ensures
        r == in_step(
            match *sync_state {
                Some(s) => Some(s@),
                None => None,
            },
        ),
{
    match sync_state {
        Some(s) => crate::text::same(s, "Synced"),
        None => false,
    }
}

/// The window is as long as it says, and an hour at least; the samples that are
/// kept are the newest, in their order, as many as it holds.
pub proof fn law_newest_samples_are_kept<T>(history: Seq<T>, sample: T, hours: int)
    ensures
        hours >= 1 ==> window(hours) == hours,
        window(hours) >= 1,
        ({
            let all = history.push(sample);
            let kept = with_sample(history, sample, hours);
            &&& all.len() <= window(hours) ==> kept == all
            &&& all.len() > window(hours) ==> kept.len() == window(hours)
            &&& forall|i: int|
                0 <= i < kept.len() ==> #[trigger] kept[i] == all[all.len() - kept.len() + i]
        }),
{
}

} // verus!
