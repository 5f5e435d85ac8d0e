//! The aggregator: the single writer of the derived series. On its own
//! cadence it reads a snapshot of the raw feed, takes the last `window`
//! values of each instrument's history, and records their arithmetic
//! mean as the derived value. The windowed mean over the raw history is
//! the chosen policy for the derived feed (rather than an independent
//! random walk), as it exhibits the raw-to-derived dependency the
//! pipeline exists for.
use vstd::arithmetic::div_mod::{lemma_div_is_ordered, lemma_div_multiples_vanish};
use vstd::prelude::*;

use crate::series::{in_range, push_evict, series_eq, series_wf, Series, CAP_LIMIT, VALUE_LIMIT};

verus! {

/// The sum of a sequence of values, as an unbounded integer.
pub open spec fn sum_spec(s: Seq<i64>) -> int
    decreases s.len(),
{
    if s.len() == 0 {
        0
    } else {
        sum_spec(s.drop_last()) + s.last()
    }
}

/// The arithmetic mean of a sequence, rounded toward negative infinity;
/// zero for an empty sequence, which never arises in the pipeline since
/// raw histories are pre-filled.
pub open spec fn mean_spec(s: Seq<i64>) -> int {
    if s.len() == 0 {
        0
    } else {
        sum_spec(s) / (s.len() as int)
    }
}

/// The last `w` elements of a history, or all of it when it is shorter.
pub open spec fn window_spec(h: Seq<i64>, w: nat) -> Seq<i64> {
    if h.len() <= w {
        h
    } else {
        h.subrange(h.len() - w, h.len() as int)
    }
}

/// The value the aggregator derives from one raw history: the mean of
/// the most recent `w` raw values.
pub open spec fn derived_value_spec(h: Seq<i64>, w: nat) -> int {
    mean_spec(window_spec(h, w))
}

/// Every value a series holds is in range.
pub open spec fn history_in_range(s: Series) -> bool {
    forall|j: int| 0 <= j < s.history@.len() ==> in_range(#[trigger] s.history@[j])
}

/// What one aggregation pass does to one derived series: its value
/// becomes the windowed mean of the raw history read at that instant,
/// the timestamp is set, and the mean is appended with eviction.
pub open spec fn aggregated(
    pre: Series,
    post: Series,
    raw_history: Seq<i64>,
    w: nat,
    now: u64,
    cap: nat,
) -> bool {
    &&& post.id == pre.id
    &&& post.current_value == derived_value_spec(raw_history, w)
    &&& post.last_update == now
    &&& post.history@ == push_evict(pre.history@, post.current_value, cap)
}

/// The derived-feed state: one series per instrument, plus the fixed
/// configuration chosen at startup.
pub struct Aggregator {
    /// One derived series per instrument, indexed by id.
    pub series: Vec<Series>,
    /// History capacity of every derived series.
    pub cap: usize,
    /// How many of the most recent raw values the mean is taken over.
    pub window: usize,
}

impl Aggregator {
    /// Well-formedness: the configuration is in bounds, every series is
    /// well-formed with a full history, and ids equal positions.
    pub open spec fn wf(self) -> bool {
        &&& 1 <= self.cap <= CAP_LIMIT
        &&& 1 <= self.window
        &&& forall|i: int| 0 <= i < self.series@.len() ==> series_wf(
            #[trigger] self.series@[i],
            self.cap as nat,
        )
        &&& forall|i: int| 0 <= i < self.series@.len() ==> (#[trigger] self.series@[i]).history@.len()
            == self.cap
        &&& forall|i: int| 0 <= i < self.series@.len() ==> (#[trigger] self.series@[i]).id == i
    }

    /// A fresh aggregator: `n` derived series, each starting at
    /// `initial` with a history pre-filled to the cap.
    pub fn new(n: usize, initial: i64, cap: usize, window: usize, now: u64) -> (a: Aggregator)
        requires
            in_range(initial),
            1 <= cap <= CAP_LIMIT,
            1 <= window,
        ensures
            a.wf(),
            a.series@.len() == n,
            a.cap == cap,
            a.window == window,
            forall|i: int| 0 <= i < n ==> (#[trigger] a.series@[i]).current_value == initial,
            forall|i: int| 0 <= i < n ==> (#[trigger] a.series@[i]).history@ == Seq::<i64>::new(
                cap as nat,
                |j: int| initial,
            ),
            forall|i: int| 0 <= i < n ==> (#[trigger] a.series@[i]).last_update == now,
    {
        let mut v: Vec<Series> = Vec::new();
        let mut i: usize = 0;
        while i < n
            invariant
                i <= n,
                in_range(initial),
                1 <= cap <= CAP_LIMIT,
                v@.len() == i,
                forall|k: int| 0 <= k < i ==> series_wf(#[trigger] v@[k], cap as nat),
                forall|k: int| 0 <= k < i ==> (#[trigger] v@[k]).history@.len() == cap,
                forall|k: int| 0 <= k < i ==> (#[trigger] v@[k]).id == k,
                forall|k: int| 0 <= k < i ==> (#[trigger] v@[k]).current_value == initial,
                forall|k: int| 0 <= k < i ==> (#[trigger] v@[k]).history@ == Seq::<i64>::new(
                    cap as nat,
                    |j: int| initial,
                ),
                forall|k: int| 0 <= k < i ==> (#[trigger] v@[k]).last_update == now,
            decreases n - i,
        {
            v.push(Series::new(i, initial, cap, now));
            i = i + 1;
        }
        Aggregator { series: v, cap, window }
    }

    /// One aggregation pass over a frozen copy of the raw feed: each
    /// derived series records the mean of the last `window` values of
    /// the matching raw history. Never fails, however short a raw
    /// history is.
    pub fn aggregate(&mut self, raw: &Vec<Series>, now: u64)
        requires
            old(self).wf(),
            raw@.len() == old(self).series@.len(),
            forall|i: int| 0 <= i < raw@.len() ==> (#[trigger] raw@[i]).history@.len() <= CAP_LIMIT,
            forall|i: int| 0 <= i < raw@.len() ==> history_in_range(#[trigger] raw@[i]),
        ensures
            final(self).wf(),
            final(self).cap == old(self).cap,
            final(self).window == old(self).window,
            final(self).series@.len() == old(self).series@.len(),
            forall|i: int| 0 <= i < old(self).series@.len() ==> aggregated(
                old(self).series@[i],
                #[trigger] final(self).series@[i],
                raw@[i].history@,
                old(self).window as nat,
                now,
                old(self).cap as nat,
            ),
    {
        let n = self.series.len();
        let cap = self.cap;
        let w = self.window;
        let mut i: usize = 0;
        while i < n
            invariant
                i <= n,
                n == old(self).series@.len(),
                self.series@.len() == n,
                raw@.len() == n,
                cap == old(self).cap,
                w == old(self).window,
                self.cap == old(self).cap,
                self.window == old(self).window,
                old(self).wf(),
                forall|k: int| 0 <= k < raw@.len() ==> (#[trigger] raw@[k]).history@.len()
                    <= CAP_LIMIT,
                forall|k: int| 0 <= k < raw@.len() ==> history_in_range(#[trigger] raw@[k]),
                forall|k: int| i <= k < n ==> #[trigger] self.series@[k] == old(self).series@[k],
                forall|k: int| 0 <= k < i ==> aggregated(
                    old(self).series@[k],
                    #[trigger] self.series@[k],
                    raw@[k].history@,
                    w as nat,
                    now,
                    cap as nat,
                ),
            decreases n - i,
        {
            let m = window_mean(&raw[i].history, w);
            let s = &mut self.series[i];
            s.record(m, now, cap);
            i = i + 1;
        }
        proof {
            assert forall|k: int| 0 <= k < self.series@.len() implies series_wf(
                #[trigger] self.series@[k],
                self.cap as nat,
            ) && self.series@[k].history@.len() == self.cap && self.series@[k].id == k by {
                let win = window_spec(raw@[k].history@, w as nat);
                assert(history_in_range(raw@[k]));
                if win.len() > 0 {
                    assert forall|j: int| 0 <= j < win.len() implies in_range(#[trigger] win[j]) by {
                        assert(win[j] == raw@[k].history@[raw@[k].history@.len() - win.len() + j]);
                    }
                    lemma_mean_in_range(win);
                }
                assert(aggregated(
                    old(self).series@[k],
                    self.series@[k],
                    raw@[k].history@,
                    w as nat,
                    now,
                    cap as nat,
                ));
            }
        }
    }

    /// A deep, point-in-time copy of every derived series, safe to hand
    /// to a reader: nothing in it aliases the aggregator's own storage.
    pub fn snapshot(&self) -> (out: Vec<Series>)
        ensures
            out@.len() == self.series@.len(),
            forall|i: int| 0 <= i < out@.len() ==> series_eq(self.series@[i], #[trigger] out@[i]),
    {
        let mut out: Vec<Series> = Vec::new();
        let mut i: usize = 0;
        while i < self.series.len()
            invariant
                i <= self.series@.len(),
                out@.len() == i,
                forall|k: int| 0 <= k < i ==> series_eq(self.series@[k], #[trigger] out@[k]),
            decreases self.series@.len() - i,
        {
            out.push(self.series[i].duplicate());
            i = i + 1;
        }
        out
    }
}

/// The derived value is a function of the raw history and the window
/// alone: two aggregation passes over the same frozen raw history yield
/// the same value. In particular, aggregating twice in immediate
/// succession with no intervening tick leaves `current_value` the same
/// both times.
pub proof fn lemma_aggregate_stable(
    pre1: Series,
    post1: Series,
    pre2: Series,
    post2: Series,
    raw_history: Seq<i64>,
    w: nat,
    now1: u64,
    now2: u64,
    cap: nat,
)
    requires
        aggregated(pre1, post1, raw_history, w, now1, cap),
        aggregated(pre2, post2, raw_history, w, now2, cap),
    ensures
        post1.current_value == post2.current_value,
{
}

/// The sum of a sequence of in-range values is bounded by its length
/// times the value limit, on both sides.
pub proof fn lemma_sum_bound(s: Seq<i64>)
    requires
        forall|i: int| 0 <= i < s.len() ==> in_range(#[trigger] s[i]),
    ensures
        -(s.len() * VALUE_LIMIT) <= sum_spec(s) <= s.len() * VALUE_LIMIT,
    decreases s.len(),
{
    if s.len() > 0 {
        lemma_sum_bound(s.drop_last());
    }
}

/// The mean of a non-empty sequence of in-range values is itself in
/// range.
pub proof fn lemma_mean_in_range(s: Seq<i64>)
    requires
        s.len() > 0,
        forall|i: int| 0 <= i < s.len() ==> in_range(#[trigger] s[i]),
    ensures
        -VALUE_LIMIT <= mean_spec(s) <= VALUE_LIMIT,
{
    let k = s.len() as int;
    lemma_sum_bound(s);
    lemma_div_is_ordered(-(k * VALUE_LIMIT), sum_spec(s), k);
    lemma_div_is_ordered(sum_spec(s), k * VALUE_LIMIT, k);
    lemma_div_multiples_vanish(-VALUE_LIMIT as int, k);
    lemma_div_multiples_vanish(VALUE_LIMIT as int, k);
    assert(k * (-VALUE_LIMIT as int) == -(k * VALUE_LIMIT));
}

/// The mean of the last `w` values of `h`, or of all of them when `h`
/// is shorter than the window.
pub fn window_mean(h: &Vec<i64>, w: usize) -> (m: i64)
    requires
        1 <= w,
        h@.len() <= CAP_LIMIT,
        forall|i: int| 0 <= i < h@.len() ==> in_range(#[trigger] h@[i]),
    ensures
        m == derived_value_spec(h@, w as nat),
        in_range(m),
{
    let len = h.len();
    if len == 0 {
        return 0;
    }
    let start: usize = if len <= w {
        0
    } else {
        len - w
    };
    let ghost win = window_spec(h@, w as nat);
    proof {
        assert(win =~= h@.subrange(start as int, len as int));
    }
    let mut sum: i64 = 0;
    let mut j: usize = start;
    while j < len
        invariant
            start <= j <= len,
            len == h@.len(),
            len <= CAP_LIMIT,
            forall|i: int| 0 <= i < h@.len() ==> in_range(#[trigger] h@[i]),
            win == h@.subrange(start as int, len as int),
            sum == sum_spec(h@.subrange(start as int, j as int)),
            -((j - start) * VALUE_LIMIT) <= sum <= (j - start) * VALUE_LIMIT,
        decreases len - j,
    {
        proof {
            assert(h@.subrange(start as int, j + 1 as int).drop_last() =~= h@.subrange(
                start as int,
                j as int,
            ));
        }
        sum = sum + h[j];
        j = j + 1;
    }
    let count = len - start;
    proof {
        assert(win =~= h@.subrange(start as int, len as int));
        assert(win.len() == count);
        assert(sum == sum_spec(win));
        assert forall|i: int| 0 <= i < win.len() implies in_range(#[trigger] win[i]) by {
            assert(win[i] == h@[start + i]);
        }
        lemma_mean_in_range(win);
    }
    let m = match sum.checked_div_euclid(count as i64) {
        Some(q) => q,
        None => 0,
    };
    proof {
        assert(m == mean_spec(win));
    }
    m
}

/// The mean over a whole history: what the readouts show beside each
/// chart.
pub fn rolling_avg(values: &Vec<i64>) -> (m: i64)
    requires
        values@.len() <= CAP_LIMIT,
        forall|i: int| 0 <= i < values@.len() ==> in_range(#[trigger] values@[i]),
    ensures
        m == mean_spec(values@),
        in_range(m),
{
    if values.len() == 0 {
        0
    } else {
        let m = window_mean(values, values.len());
        proof {
            assert(window_spec(values@, values@.len()) == values@);
        }
        m
    }
}

} // verus!
