use vstd::prelude::*;

verus! {

// ── Tempo: the most common gap between onsets ──────────────────────────────

/// Number of one-millisecond bins of the inter-onset-interval histogram
/// (0.2 s to 2.0 s).
pub const NUM_IOI_BINS: usize = 1800;

/// How often bin `b` occurs in `bins`.
pub open spec fn bin_count(bins: Seq<usize>, b: int) -> nat
    decreases bins.len(),
{
    if bins.len() == 0 {
        0
    } else {
        bin_count(bins.drop_last(), b) + if bins.last() == b {
            1nat
        } else {
            0nat
        }
    }
}

/// `m` is the histogram's mode: no bin below `NUM_IOI_BINS` occurs more
/// often, and every later bin occurs less often (of equally common bins,
/// the last).
pub open spec fn is_modal_bin(bins: Seq<usize>, m: int) -> bool {
    &&& 0 <= m < NUM_IOI_BINS
    &&& forall|b: int| 0 <= b < NUM_IOI_BINS ==> #[trigger] bin_count(bins, b) <= bin_count(bins, m)
    &&& forall|b: int| m < b < NUM_IOI_BINS ==> #[trigger] bin_count(bins, b) < bin_count(bins, m)
}

proof fn lemma_bin_count_bound(bins: Seq<usize>, b: int)
    ensures
        bin_count(bins, b) <= bins.len(),
    decreases bins.len(),
{
    if bins.len() > 0 {
        lemma_bin_count_bound(bins.drop_last(), b);
    }
}

/// The most common inter-onset-interval bin: `bins` holds one bin index per
/// interval (indices from `NUM_IOI_BINS` on are not counted); of equally
/// common bins the last wins.
pub fn modal_ioi_bin(bins: &Vec<usize>) -> (m: usize)
    ensures
        is_modal_bin(bins@, m as int),
{
    let mut hist: Vec<u64> = Vec::new();
    for b in 0..NUM_IOI_BINS
        invariant
            hist@.len() == b,
            forall|k: int| 0 <= k < b ==> #[trigger] hist@[k] == 0,
    {
        hist.push(0);
    }
    assert(bins@.take(0) =~= Seq::<usize>::empty());
    for i in 0..bins.len()
        invariant
            hist@.len() == NUM_IOI_BINS,
            forall|k: int|
                0 <= k < NUM_IOI_BINS ==> #[trigger] hist@[k] == bin_count(bins@.take(i as int), k),
    {
        assert(bins@.take(i + 1).drop_last() =~= bins@.take(i as int));
        let bin = bins[i];
        if bin < NUM_IOI_BINS {
            proof {
                lemma_bin_count_bound(bins@.take(i as int), bin as int);
            }
            let c = hist[bin];
            hist.set(bin, c + 1);
        }
    }
    assert(bins@.take(bins@.len() as int) =~= bins@);
    let mut best: usize = 0;
    for b in 1..NUM_IOI_BINS
        invariant
            hist@.len() == NUM_IOI_BINS,
            forall|k: int| 0 <= k < NUM_IOI_BINS ==> #[trigger] hist@[k] == bin_count(bins@, k),
            best < b,
            forall|k: int| 0 <= k < b ==> #[trigger] bin_count(bins@, k) <= bin_count(bins@, best as int),
            forall|k: int| best < k < b ==> #[trigger] bin_count(bins@, k) < bin_count(bins@, best as int),
    {
        if hist[b] >= hist[best] {
            best = b;
        }
    }
    best
}

// ── Holds: merging runs of notes in one lane ────────────────────────────────

/// Notes of one lane at most this many grid slots (sixteenth notes, 2 beats)
/// after the previous note of that lane continue its run.
pub const MERGE_SLOTS: i64 = 8;

/// The last entry before `k` whose lane is `lane`, or -1.
pub open spec fn last_in_lane_before(lanes: Seq<usize>, lane: usize, k: int) -> int
    decreases k,
{
    if k <= 0 {
        -1
    } else if lanes[k - 1] == lane {
        k - 1
    } else {
        last_in_lane_before(lanes, lane, k - 1)
    }
}

/// The first entry from `k` on whose lane is `lane`, or `lanes.len()`.
pub open spec fn first_in_lane_from(lanes: Seq<usize>, lane: usize, k: int) -> int
    decreases lanes.len() - k,
{
    if k >= lanes.len() {
        lanes.len() as int
    } else if k >= 0 && lanes[k] == lane {
        k
    } else {
        first_in_lane_from(lanes, lane, k + 1)
    }
}

/// Entry `k` continues the run of the previous note in its lane, and is
/// merged into that run's hold.
pub open spec fn merged_away(slots: Seq<i64>, lanes: Seq<usize>, k: int) -> bool {
    let p = last_in_lane_before(lanes, lanes[k], k);
    p >= 0 && slots[k] - slots[p] <= MERGE_SLOTS
}

/// The grid slot of the last note of the run that entry `k` is part of,
/// counting from `k` on.
pub open spec fn run_end(slots: Seq<i64>, lanes: Seq<usize>, k: int) -> i64
    decreases lanes.len() - k,
{
    let n = first_in_lane_from(lanes, lanes[k], k + 1);
    if 0 <= k < n < lanes.len() && slots[n] - slots[k] <= MERGE_SLOTS {
        run_end(slots, lanes, n)
    } else {
        slots[k]
    }
}

/// The first entry after `i` that is not merged away, or `slots.len()`.
pub open spec fn next_kept(slots: Seq<i64>, lanes: Seq<usize>, i: int) -> int
    decreases slots.len() - i,
{
    if i + 1 >= slots.len() {
        slots.len() as int
    } else if !merged_away(slots, lanes, i + 1) {
        i + 1
    } else {
        next_kept(slots, lanes, i + 1)
    }
}

/// What becomes of one chart entry when runs are merged into holds.
#[derive(Clone, Copy, PartialEq, Eq, Structural, Debug)]
pub struct HoldPlan {
    /// The entry continues an earlier note's run and leaves the chart.
    pub merged: bool,
    /// The grid slot of the last note of the entry's run (its own slot when
    /// no later note continues it).
    pub run_end: i64,
    /// The next entry that stays in the chart, if any.
    pub next_kept: Option<usize>,
}

/// The plan of entry `k`.
pub open spec fn spec_plan(slots: Seq<i64>, lanes: Seq<usize>, k: int) -> HoldPlan {
    HoldPlan {
        merged: merged_away(slots, lanes, k),
        run_end: run_end(slots, lanes, k),
        next_kept: if next_kept(slots, lanes, k) < slots.len() {
            Some(next_kept(slots, lanes, k) as usize)
        } else {
            None
        },
    }
}

/// Entries sorted by grid slot (`slots`, strictly increasing) with their lanes:
/// per entry, whether it merges into the previous note of its lane, where its
/// run ends, and which entry is the next one kept.
pub fn plan_holds(slots: &Vec<i64>, lanes: &Vec<usize>) -> (plans: Vec<HoldPlan>)
    requires
        slots@.len() == lanes@.len(),
        forall|i: int, j: int| 0 <= i < j < slots@.len() ==> slots@[i] < slots@[j],
        forall|i: int| 0 <= i < slots@.len() ==> #[trigger] slots@[i] >= 0,
    ensures
        plans@.len() == slots@.len(),
        forall|k: int| 0 <= k < slots@.len() ==> #[trigger] plans@[k] == spec_plan(slots@, lanes@, k),
{
    let n = slots.len();
    // whether each entry merges into the previous note of its lane
    let mut merged: Vec<bool> = Vec::new();
    for k in 0..n
        invariant
            n == slots@.len(),
            n == lanes@.len(),
            merged@.len() == k,
            forall|j: int| 0 <= j < k ==> #[trigger] merged@[j] == merged_away(slots@, lanes@, j),
            forall|i: int| 0 <= i < n ==> #[trigger] slots@[i] >= 0,
    {
        let mut p = k;
        let mut found = false;
        while p > 0 && !found
            invariant
                p <= k < n,
                n == lanes@.len(),
                !found ==> last_in_lane_before(lanes@, lanes@[k as int], k as int)
                    == last_in_lane_before(lanes@, lanes@[k as int], p as int),
                found ==> p < k && last_in_lane_before(lanes@, lanes@[k as int], k as int) == p,
            decreases p,
        {
            if lanes[p - 1] == lanes[k] {
                found = true;
            }
            p = p - 1;
        }
        let m = found && slots[k] - slots[p] <= MERGE_SLOTS;
        merged.push(m);
    }
    // where each entry's run ends, from the last entry back
    let mut ends: Vec<i64> = Vec::new();
    for k in 0..n
        invariant
            ends@.len() == k,
    {
        ends.push(0);
    }
    let mut k = n;
    while k > 0
        invariant
            k <= n,
            n == slots@.len(),
            n == lanes@.len(),
            ends@.len() == n,
            forall|j: int| k <= j < n ==> #[trigger] ends@[j] == run_end(slots@, lanes@, j),
            forall|i: int| 0 <= i < n ==> #[trigger] slots@[i] >= 0,
        decreases k,
    {
        k = k - 1;
        let mut q = k + 1;
        while q < n && lanes[q] != lanes[k]
            invariant
                k < q <= n,
                n == lanes@.len(),
                first_in_lane_from(lanes@, lanes@[k as int], k + 1) == first_in_lane_from(
                    lanes@,
                    lanes@[k as int],
                    q as int,
                ),
            decreases n - q,
        {
            q = q + 1;
        }
        proof {
            if q < n {
                assert(first_in_lane_from(lanes@, lanes@[k as int], q as int) == q);
            } else {
                assert(first_in_lane_from(lanes@, lanes@[k as int], q as int) == n);
            }
        }
        let e = if q < n && slots[q] - slots[k] <= MERGE_SLOTS {
            ends[q]
        } else {
            slots[k]
        };
        ends.set(k, e);
    }
    // the next kept entry, from the last entry back
    let mut plans: Vec<HoldPlan> = Vec::new();
    let mut nexts: Vec<Option<usize>> = Vec::new();
    for k in 0..n
        invariant
            nexts@.len() == k,
    {
        nexts.push(None);
    }
    let mut nk: Option<usize> = None;
    let mut k = n;
    while k > 0
        invariant
            k <= n,
            n == slots@.len(),
            n == lanes@.len(),
            merged@.len() == n,
            nexts@.len() == n,
            forall|j: int| 0 <= j < n ==> #[trigger] merged@[j] == merged_away(slots@, lanes@, j),
            nk == (if k < n && next_kept(slots@, lanes@, k as int - 1) < n {
                Some(next_kept(slots@, lanes@, k as int - 1) as usize)
            } else {
                None::<usize>
            }),
            forall|j: int|
                k <= j < n ==> #[trigger] nexts@[j] == (if next_kept(slots@, lanes@, j) < n {
                    Some(next_kept(slots@, lanes@, j) as usize)
                } else {
                    None::<usize>
                }),
        decreases k,
    {
        k = k - 1;
        proof {
            assert(merged@[k as int] == merged_away(slots@, lanes@, k as int));
            assert(next_kept(slots@, lanes@, k as int - 1) == if !merged_away(
                slots@,
                lanes@,
                k as int,
            ) {
                k as int
            } else {
                next_kept(slots@, lanes@, k as int)
            });
        }
        nexts.set(k, nk);
        if !merged[k] {
            nk = Some(k);
        }
    }
    for k in 0..n
        invariant
            n == slots@.len(),
            n == lanes@.len(),
            merged@.len() == n,
            ends@.len() == n,
            nexts@.len() == n,
            plans@.len() == k,
            forall|j: int| 0 <= j < n ==> #[trigger] merged@[j] == merged_away(slots@, lanes@, j),
            forall|j: int| 0 <= j < n ==> #[trigger] ends@[j] == run_end(slots@, lanes@, j),
            forall|j: int|
                0 <= j < n ==> #[trigger] nexts@[j] == (if next_kept(slots@, lanes@, j) < n {
                    Some(next_kept(slots@, lanes@, j) as usize)
                } else {
                    None::<usize>
                }),
            forall|j: int| 0 <= j < k ==> #[trigger] plans@[j] == spec_plan(slots@, lanes@, j),
    {
        plans.push(HoldPlan { merged: merged[k], run_end: ends[k], next_kept: nexts[k] });
    }
    plans
}

} // verus!
