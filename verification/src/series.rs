//! Merging the time series of several chains into one, aligned to the
//! longest of them by nearest timestamp.

use std::collections::HashSet;
use vstd::prelude::*;

verus! {

/// One sample of a series: a count, the unix second it belongs to, and
/// that second as rendered text.
pub type Entry = (u64, i64, String);

/// The mathematical value of an `Entry`.
pub type Point = (u64, i64, Seq<char>);

/// The timestamp by which series of equal length are ranked: that of the
/// first sample, or the largest timestamp for a series without samples.
pub open spec fn first_stamp(series: Seq<Point>) -> int {
    if series.len() > 0 {
        series[0].1 as int
    } else {
        i64::MAX as int
    }
}

/// `a` is a better base than `b`: it is longer, or as long and starts later.
pub open spec fn outranks(a: Seq<Point>, b: Seq<Point>) -> bool {
    a.len() > b.len() || (a.len() == b.len() && first_stamp(a) > first_stamp(b))
}

/// The base among the first `n` series: the best of them, the last one
/// where several are equally good.
pub open spec fn base_among(chains: Seq<Seq<Point>>, n: int) -> int
    decreases n,
{
    if n <= 1 {
        0
    } else {
        let earlier = base_among(chains, n - 1);
        if outranks(chains[earlier], chains[n - 1]) {
            earlier
        } else {
            n - 1
        }
    }
}

/// The series that the others are aligned to.
pub open spec fn base_index(chains: Seq<Seq<Point>>) -> int {
    base_among(chains, chains.len() as int)
}

/// The distance between two timestamps.
pub open spec fn gap(stamp: int, target: int) -> int {
    if stamp >= target {
        stamp - target
    } else {
        target - stamp
    }
}

/// Among the first `n` samples of `series` that are not in `used`, the
/// one nearest to `target`; the first of them where several are equally
/// near; `None` where all are used.
pub open spec fn nearest(series: Seq<Point>, used: Set<int>, target: int, n: int) -> Option<int>
    decreases n,
{
    if n <= 0 {
        None
    } else {
        let before = nearest(series, used, target, n - 1);
        if used.contains(n - 1) {
            before
        } else {
            match before {
                Some(p) => if gap(series[n - 1].1 as int, target) < gap(series[p].1 as int, target) {
                    Some(n - 1)
                } else {
                    before
                },
                None => Some(n - 1),
            }
        }
    }
}

/// The samples of `series` that the first `r` rows of `base` have taken.
/// A sample is taken once: a later row gets the nearest of what is left.
pub open spec fn used_before(series: Seq<Point>, base: Seq<Point>, r: int) -> Set<int>
    decreases r,
{
    if r <= 0 {
        Set::empty()
    } else {
        let used = used_before(series, base, r - 1);
        match nearest(series, used, base[r - 1].1 as int, series.len() as int) {
            Some(i) => used.insert(i),
            None => used,
        }
    }
}

/// The count that `series` adds to row `r` of `base`.
pub open spec fn gain(series: Seq<Point>, base: Seq<Point>, r: int) -> int {
    match nearest(series, used_before(series, base, r), base[r].1 as int, series.len() as int) {
        Some(i) => series[i].0 as int,
        None => 0,
    }
}

/// What the first `n` series, the base `b` left out, add to row `r`.
pub open spec fn others(chains: Seq<Seq<Point>>, b: int, r: int, n: int) -> int
    decreases n,
{
    if n <= 0 {
        0
    } else {
        others(chains, b, r, n - 1) + if n - 1 == b {
            0
        } else {
            gain(chains[n - 1], chains[b], r)
        }
    }
}

/// The summed count of row `r`.
pub open spec fn row_total(chains: Seq<Seq<Point>>, b: int, r: int) -> int {
    chains[b][r].0 + others(chains, b, r, chains.len() as int)
}

/// Every summed count fits in 64 bits.
pub open spec fn fits(chains: Seq<Seq<Point>>) -> bool {
    forall|r: int|
        0 <= r < chains[base_index(chains)].len() ==> #[trigger] row_total(
            chains,
            base_index(chains),
            r,
        ) <= u64::MAX
}

/// The merged series: one row per sample of the base, with its timestamp
/// and text, and the summed count.
pub open spec fn aligned(chains: Seq<Seq<Point>>) -> Seq<Point> {
    if chains.len() == 0 {
        Seq::empty()
    } else {
        let b = base_index(chains);
        Seq::new(
            chains[b].len(),
            |r: int| (row_total(chains, b, r) as u64, chains[b][r].1, chains[b][r].2),
        )
    }
}

/// The positions that a set of consumed positions holds, as integers.
pub open spec fn marked(used: Set<usize>) -> Set<int> {
    Set::new(|i: int| 0 <= i <= usize::MAX && used.contains(i as usize))
}

/// The base is one of the series, no earlier series is better than it,
/// and it is better than every later one.
pub proof fn lemma_base_is_best(chains: Seq<Seq<Point>>, n: int)
    requires
        1 <= n <= chains.len(),
    ensures
        0 <= base_among(chains, n) < n,
        forall|j: int|
            0 <= j < base_among(chains, n) ==> !outranks(
                #[trigger] chains[j],
                chains[base_among(chains, n)],
            ),
        forall|j: int|
            base_among(chains, n) < j < n ==> outranks(
                chains[base_among(chains, n)],
                #[trigger] chains[j],
            ),
    decreases n,
{
    if n > 1 {
        lemma_base_is_best(chains, n - 1);
    }
}

/// What `nearest` returns is an unused sample, no unused sample is
/// nearer, and no earlier unused sample is as near.
pub proof fn lemma_nearest_is_nearest(series: Seq<Point>, used: Set<int>, target: int, n: int)
    requires
        0 <= n <= series.len(),
    ensures
        match nearest(series, used, target, n) {
            Some(p) => {
                &&& 0 <= p < n
                &&& !used.contains(p)
                &&& forall|j: int|
                    0 <= j < n && !used.contains(j) ==> gap(series[p].1 as int, target) <= gap(
                        (#[trigger] series[j]).1 as int,
                        target,
                    )
                &&& forall|j: int|
                    0 <= j < p && !used.contains(j) ==> gap(series[p].1 as int, target) < gap(
                        (#[trigger] series[j]).1 as int,
                        target,
                    )
            },
            None => forall|j: int| 0 <= j < n ==> used.contains(j),
        },
    decreases n,
{
    if n > 0 {
        lemma_nearest_is_nearest(series, used, target, n - 1);
    }
}

/// No series adds a negative count, so the sum over more series is no
/// smaller.
pub proof fn lemma_others_grow(chains: Seq<Seq<Point>>, b: int, r: int, k: int, n: int)
    requires
        0 <= k <= n,
    ensures
        0 <= others(chains, b, r, k) <= others(chains, b, r, n),
    decreases n,
{
    if n > 0 {
        if k < n {
            lemma_others_grow(chains, b, r, k, n - 1);
        } else {
            lemma_others_grow(chains, b, r, k - 1, n - 1);
        }
    }
}

/// A single series is merged into itself: every count stays as it is.
pub proof fn lemma_single_series_unchanged(series: Seq<Point>)
    ensures
        aligned(seq![series]) == series,
{
    let chains = seq![series];
    assert(base_index(chains) == 0);
    assert forall|r: int| 0 <= r < series.len() implies aligned(chains)[r] == series[r] by {
        assert(others(chains, 0, r, 1) == others(chains, 0, r, 0) + 0);
        assert(others(chains, 0, r, 0) == 0);
        assert(row_total(chains, 0, r) == series[r].0);
    }
    assert(aligned(chains) =~= series);
}

/// Without series there is nothing to merge.
pub proof fn lemma_no_series_nothing(chains: Seq<Seq<Point>>)
    requires
        chains.len() == 0,
    ensures
        aligned(chains).len() == 0,
{
}

/// The merged series has the base's length, timestamps and texts.
pub proof fn lemma_aligned_follows_base(chains: Seq<Seq<Point>>)
    requires
        chains.len() > 0,
    ensures
        aligned(chains).len() == chains[base_index(chains)].len(),
        forall|r: int|
            0 <= r < aligned(chains).len() ==> (#[trigger] aligned(chains)[r]).1
                == chains[base_index(chains)][r].1 && aligned(chains)[r].2
                == chains[base_index(chains)][r].2,
{
}

fn first_stamp_of(series: &Vec<Entry>) -> (stamp: i64)
    ensures
        stamp == first_stamp(series.deep_view()),
{
    if series.len() > 0 {
        series[0].1
    } else {
        i64::MAX
    }
}

fn select_base(chains: &Vec<Vec<Entry>>) -> (base: usize)
    requires
        chains.len() > 0,
    ensures
        base == base_index(chains.deep_view()),
        base < chains.len(),
{
    let ghost model = chains.deep_view();
    let mut best: usize = 0;
    let mut k: usize = 1;
    while k < chains.len()
        invariant
            1 <= k <= chains.len(),
            model == chains.deep_view(),
            best == base_among(model, k as int),
            best < k,
        decreases chains.len() - k,
    {
        let held = &chains[best];
        let cand = &chains[k];
        assert(model[best as int] == held.deep_view());
        assert(model[k as int] == cand.deep_view());
        let better = held.len() > cand.len() || (held.len() == cand.len() && first_stamp_of(held)
            > first_stamp_of(cand));
        if !better {
            best = k;
        }
        k = k + 1;
    }
    best
}

fn fresh_sets(chains: &Vec<Vec<Entry>>) -> (used: Vec<HashSet<usize>>)
    ensures
        used.len() == chains.len(),
        forall|k: int|
            0 <= k < chains.len() ==> marked((#[trigger] used[k])@) == Set::<int>::empty(),
{
    broadcast use vstd::std_specs::hash::group_hash_axioms;

    let mut used: Vec<HashSet<usize>> = Vec::new();
    let mut k: usize = 0;
    while k < chains.len()
        invariant
            k <= chains.len(),
            used.len() == k,
            forall|j: int| 0 <= j < k ==> marked((#[trigger] used[j])@) == Set::<int>::empty(),
        decreases chains.len() - k,
    {
        let none: HashSet<usize> = HashSet::new();
        assert(marked(none@) =~= Set::<int>::empty());
        used.push(none);
        k = k + 1;
    }
    used
}

/// The nearest unused sample of `chain` to `target`, by one scan.
fn scan_nearest(chain: &Vec<Entry>, taken_so_far: &HashSet<usize>, target: i64) -> (found: Option<usize>)
    ensures
        match found {
            Some(p) => nearest(
                chain.deep_view(),
                marked(taken_so_far@),
                target as int,
                chain.len() as int,
            ) == Some(p as int) && p < chain.len() && !taken_so_far@.contains(p),
            None => nearest(chain.deep_view(), marked(taken_so_far@), target as int, chain.len() as int)
                is None,
        },
{
    broadcast use vstd::std_specs::hash::group_hash_axioms;

    let ghost series = chain.deep_view();
    let ghost used = marked(taken_so_far@);
    let mut closest: Option<usize> = None;
    let mut best: i128 = 0;
    let mut i: usize = 0;
    while i < chain.len()
        invariant
            i <= chain.len(),
            series == chain.deep_view(),
            used == marked(taken_so_far@),
            match closest {
                Some(p) => nearest(series, used, target as int, i as int) == Some(p as int) && p < i
                    && !taken_so_far@.contains(p) && best == gap(series[p as int].1 as int, target as int),
                None => nearest(series, used, target as int, i as int) is None,
            },
        decreases chain.len() - i,
    {
        let taken = taken_so_far.contains(&i);
        assert(used.contains(i as int) == taken);
        if !taken {
            let stamp: i64 = chain[i].1;
            assert(series[i as int].1 == stamp);
            let d: i128 = stamp as i128 - target as i128;
            let diff: i128 = if d < 0 {
                -d
            } else {
                d
            };
            let take = match closest {
                None => true,
                Some(_) => diff < best,
            };
            if take {
                closest = Some(i);
                best = diff;
            }
        }
        i = i + 1;
    }
    closest
}

/// Merges the series of several chains into one. The base is the longest
/// series, among equally long ones the one that starts latest, and the
/// last of those that tie. Each row of the base gets, from every other
/// series, the count of the nearest sample that no earlier row has taken.
pub fn accumulate_along_longest_chain(chains: Vec<Vec<Entry>>) -> (merged: Vec<Entry>)
    requires
        fits(chains.deep_view()),
    ensures
        merged.deep_view() == aligned(chains.deep_view()),
{
    match checked_accumulate_along_longest_chain(chains) {
        Some(merged) => merged,
        None => Vec::new(),
    }
}

/// Merges the series of several chains into one, as
/// `accumulate_along_longest_chain` does, where every summed count fits
/// in 64 bits; `None` where one does not.
pub fn checked_accumulate_along_longest_chain(chains: Vec<Vec<Entry>>) -> (merged: Option<
    Vec<Entry>,
>)
    ensures
        match merged {
            Some(m) => fits(chains.deep_view()) && m.deep_view() == aligned(chains.deep_view()),
            None => !fits(chains.deep_view()),
        },
{
    let ghost model = chains.deep_view();
    let n = chains.len();
    if n == 0 {
        let merged: Vec<Entry> = Vec::new();
        assert(merged.deep_view() =~= aligned(model));
        return Some(merged);
    }
    let b = select_base(&chains);
    let mut used = fresh_sets(&chains);
    let base = &chains[b];
    assert(model[b as int] == base.deep_view());
    let mut merged: Vec<Entry> = Vec::new();
    let mut r: usize = 0;
    while r < base.len()
        invariant
            n == chains.len(),
            n > 0,
            model == chains.deep_view(),
            b == base_index(model),
            b < n,
            base == chains[b as int],
            model[b as int] == base.deep_view(),
            used.len() == n,
            forall|k: int|
                0 <= k < n && k != b ==> marked((#[trigger] used[k])@) == used_before(
                    model[k],
                    model[b as int],
                    r as int,
                ),
            r <= base.len(),
            merged.len() == r,
            forall|j: int|
                0 <= j < r ==> (#[trigger] merged[j]).0 == row_total(model, b as int, j)
                    && merged[j].1 == base[j].1 && merged[j].2@ == base[j].2@,
        decreases base.len() - r,
    {
        let base_tps: u64 = base[r].0;
        let base_ts: i64 = base[r].1;
        assert(model[b as int][r as int].0 == base_tps);
        assert(model[b as int][r as int].1 == base_ts);
        let mut total: u64 = base_tps;
        let mut k: usize = 0;
        while k < n
            invariant
                n == chains.len(),
                model == chains.deep_view(),
                b < n,
                r < base.len(),
                base == chains[b as int],
                model[b as int] == base.deep_view(),
                base_tps == base[r as int].0,
                base_ts == base[r as int].1,
                model[b as int][r as int].0 == base_tps,
                model[b as int][r as int].1 == base_ts,
                b == base_index(model),
                used.len() == n,
                forall|j: int|
                    0 <= j < n && j != b ==> marked((#[trigger] used[j])@) == used_before(
                        model[j],
                        model[b as int],
                        if j < k {
                            r + 1
                        } else {
                            r as int
                        },
                    ),
                k <= n,
                total == base_tps + others(model, b as int, r as int, k as int),
            decreases n - k,
        {
            proof {
                lemma_others_grow(model, b as int, r as int, k as int + 1, n as int);
            }
            if k != b {
                let chain = &chains[k];
                assert(model[k as int] == chain.deep_view());
                let found = scan_nearest(chain, &used[k], base_ts);
                match found {
                    Some(p) => {
                        let ghost before = used[k as int]@;
                        let row: &mut HashSet<usize> = &mut used[k];
                        row.insert(p);
                        proof {
                            assert(marked(before.insert(p)) =~= marked(before).insert(p as int));
                            assert(model[k as int][p as int].0 == chain[p as int].0);
                        }
                        match total.checked_add(chain[p].0) {
                            Some(sum) => {
                                total = sum;
                            },
                            None => {
                                assert(row_total(model, b as int, r as int) > u64::MAX);
                                return None;
                            },
                        }
                    },
                    None => {},
                }
            }
            k = k + 1;
        }
        merged.push((total, base_ts, base[r].2.clone()));
        r = r + 1;
    }
    proof {
        assert(merged.deep_view() =~= aligned(model)) by {
            assert forall|j: int| 0 <= j < merged.len() implies merged.deep_view()[j] == aligned(
                model,
            )[j] by {
                assert(model[b as int][j].1 == base[j].1);
                assert(model[b as int][j].2 == base[j].2@);
            }
        }
        assert forall|j: int| 0 <= j < model[b as int].len() implies #[trigger] row_total(
            model,
            b as int,
            j,
        ) <= u64::MAX by {
            assert(merged[j].0 == row_total(model, b as int, j));
        }
    }
    Some(merged)
}

} // verus!
