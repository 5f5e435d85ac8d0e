//! The tick generator: the single writer of the raw instrument series.
//! Each tick perturbs every instrument by a bounded random delta, floors
//! the value when the non-negative clamp is enabled, and appends to the
//! bounded rolling history.
use vstd::prelude::*;

use crate::series::{
    in_range, push_evict, series_eq, series_wf, Series, CAP_LIMIT, VALUE_LIMIT,
};
use rand::Rng;

verus! {

/// The smallest value a step may produce: zero under the clamp, the
/// saturation floor otherwise.
pub open spec fn floor_limit(clamp: bool) -> int {
    if clamp {
        0
    } else {
        -VALUE_LIMIT as int
    }
}

/// One perturbation step: add the delta, then saturate into the accepted
/// range, whose lower end is zero when the clamp is enabled.
pub open spec fn step_spec(v: i64, d: i64, clamp: bool) -> i64 {
    let raw = v + d;
    if raw < floor_limit(clamp) {
        floor_limit(clamp) as i64
    } else if raw > VALUE_LIMIT {
        VALUE_LIMIT
    } else {
        raw as i64
    }
}

/// What one tick does to one series: the value is stepped by the delta,
/// the timestamp is set, and the new value is appended with eviction.
pub open spec fn ticked(pre: Series, post: Series, d: i64, now: u64, cap: nat, clamp: bool) -> bool {
    &&& post.id == pre.id
    &&& post.current_value == step_spec(pre.current_value, d, clamp)
    &&& post.last_update == now
    &&& post.history@ == push_evict(pre.history@, post.current_value, cap)
}

/// What one tick does to one series when the delta is not known to the
/// caller: some delta within the configured range was drawn, and the
/// update followed it exactly.
pub open spec fn ticked_some(
    pre: Series,
    post: Series,
    max_delta: i64,
    now: u64,
    cap: nat,
    clamp: bool,
) -> bool {
    exists|d: i64| -max_delta <= d <= max_delta && #[trigger] ticked(pre, post, d, now, cap, clamp)
}

/// All values of a series, current and historical, are non-negative.
pub open spec fn series_nonneg(s: Series) -> bool {
    &&& s.current_value >= 0
    &&& forall|j: int| 0 <= j < s.history@.len() ==> s.history@[j] >= 0
}

/// The raw-feed state: one series per instrument, plus the fixed
/// configuration chosen at startup.
pub struct Generator {
    /// One series per instrument, indexed by id.
    pub series: Vec<Series>,
    /// History capacity of every series.
    pub cap: usize,
    /// Largest magnitude of one perturbation.
    pub max_delta: i64,
    /// Whether values are floored at zero instead of going negative.
    pub clamp: bool,
}

impl Generator {
    /// Well-formedness: the configuration is in bounds, every series is
    /// well-formed with a full history (histories are pre-filled at
    /// startup and keep their length), ids equal positions, and under
    /// the clamp no held value is negative.
    pub open spec fn wf(self) -> bool {
        &&& 1 <= self.cap <= CAP_LIMIT
        &&& 0 <= self.max_delta <= VALUE_LIMIT
        &&& forall|i: int| 0 <= i < self.series@.len() ==> series_wf(
            #[trigger] self.series@[i],
            self.cap as nat,
        )
        &&& forall|i: int| 0 <= i < self.series@.len() ==> (#[trigger] self.series@[i]).history@.len()
            == self.cap
        &&& forall|i: int| 0 <= i < self.series@.len() ==> (#[trigger] self.series@[i]).id == i
        &&& self.clamp ==> forall|i: int| 0 <= i < self.series@.len() ==> series_nonneg(
            #[trigger] self.series@[i],
        )
    }

    /// A fresh generator: `n` instruments, each starting at `initial`
    /// with a history pre-filled to the cap.
    pub fn new(n: usize, initial: i64, cap: usize, max_delta: i64, clamp: bool, now: u64) -> (g:
        Generator)
        requires
            in_range(initial),
            clamp ==> initial >= 0,
            1 <= cap <= CAP_LIMIT,
            0 <= max_delta <= VALUE_LIMIT,
        ensures
            g.wf(),
            g.series@.len() == n,
            g.cap == cap,
            g.max_delta == max_delta,
            g.clamp == clamp,
            forall|i: int| 0 <= i < n ==> (#[trigger] g.series@[i]).current_value == initial,
            forall|i: int| 0 <= i < n ==> (#[trigger] g.series@[i]).history@ == Seq::<i64>::new(
                cap as nat,
                |j: int| initial,
            ),
            forall|i: int| 0 <= i < n ==> (#[trigger] g.series@[i]).last_update == now,
    {
        let mut v: Vec<Series> = Vec::new();
        let mut i: usize = 0;
        while i < n
            invariant
                i <= n,
                in_range(initial),
                clamp ==> initial >= 0,
                1 <= cap <= CAP_LIMIT,
                v@.len() == i,
                forall|k: int| 0 <= k < i ==> series_wf(#[trigger] v@[k], cap as nat),
                forall|k: int| 0 <= k < i ==> (#[trigger] v@[k]).id == k,
                forall|k: int| 0 <= k < i ==> (#[trigger] v@[k]).current_value == initial,
                forall|k: int| 0 <= k < i ==> (#[trigger] v@[k]).last_update == now,
                forall|k: int| 0 <= k < i ==> (#[trigger] v@[k]).history@ == Seq::<i64>::new(
                    cap as nat,
                    |j: int| initial,
                ),
            decreases n - i,
        {
            v.push(Series::new(i, initial, cap, now));
            i = i + 1;
        }
        Generator { series: v, cap, max_delta, clamp }
    }

    /// Apply one tick with the given per-instrument deltas. Split out
    /// from `tick` so that the whole update is a checked function of its
    /// inputs; `tick` draws the deltas at random and calls this.
    pub fn tick_with(&mut self, deltas: &Vec<i64>, now: u64)
        requires
            old(self).wf(),
            deltas@.len() == old(self).series@.len(),
            forall|i: int| 0 <= i < deltas@.len() ==> -old(self).max_delta <= #[trigger] deltas@[i]
                <= old(self).max_delta,
        ensures
            final(self).wf(),
            final(self).cap == old(self).cap,
            final(self).max_delta == old(self).max_delta,
            final(self).clamp == old(self).clamp,
            final(self).series@.len() == old(self).series@.len(),
            forall|i: int| 0 <= i < old(self).series@.len() ==> ticked(
                old(self).series@[i],
                #[trigger] final(self).series@[i],
                deltas@[i],
                now,
                old(self).cap as nat,
                old(self).clamp,
            ),
    {
        let n = self.series.len();
        let cap = self.cap;
        let clamp = self.clamp;
        let mut i: usize = 0;
        while i < n
            invariant
                i <= n,
                n == old(self).series@.len(),
                self.series@.len() == n,
                deltas@.len() == n,
                cap == old(self).cap,
                clamp == old(self).clamp,
                self.cap == old(self).cap,
                self.max_delta == old(self).max_delta,
                self.clamp == old(self).clamp,
                old(self).wf(),
                forall|k: int| 0 <= k < deltas@.len() ==> -old(self).max_delta
                    <= #[trigger] deltas@[k] <= old(self).max_delta,
                forall|k: int| i <= k < n ==> #[trigger] self.series@[k] == old(self).series@[k],
                forall|k: int| 0 <= k < i ==> ticked(
                    old(self).series@[k],
                    #[trigger] self.series@[k],
                    deltas@[k],
                    now,
                    cap as nat,
                    clamp,
                ),
            decreases n - i,
        {
            let d = deltas[i];
            let v = step(self.series[i].current_value, d, clamp);
            let s = &mut self.series[i];
            s.record(v, now, cap);
            i = i + 1;
        }
        proof {
            assert forall|k: int| 0 <= k < self.series@.len() implies series_wf(
                #[trigger] self.series@[k],
                self.cap as nat,
            ) && self.series@[k].history@.len() == self.cap && self.series@[k].id == k by {
                assert(ticked(
                    old(self).series@[k],
                    self.series@[k],
                    deltas@[k],
                    now,
                    cap as nat,
                    clamp,
                ));
            }
            if self.clamp {
                assert forall|k: int| 0 <= k < self.series@.len() implies series_nonneg(
                    #[trigger] self.series@[k],
                ) by {
                    assert(ticked(
                        old(self).series@[k],
                        self.series@[k],
                        deltas@[k],
                        now,
                        cap as nat,
                        clamp,
                    ));
                    assert(series_nonneg(old(self).series@[k]));
                }
            }
        }
    }

    /// Advance every instrument by one randomly drawn perturbation.
    /// Nothing is promised of which delta was drawn, only that each lay
    /// within the configured range and the update followed it exactly.
    pub fn tick(&mut self, now: u64)
        requires
            old(self).wf(),
        ensures
            final(self).wf(),
            final(self).cap == old(self).cap,
            final(self).max_delta == old(self).max_delta,
            final(self).clamp == old(self).clamp,
            final(self).series@.len() == old(self).series@.len(),
            forall|i: int| 0 <= i < old(self).series@.len() ==> ticked_some(
                old(self).series@[i],
                #[trigger] final(self).series@[i],
                old(self).max_delta,
                now,
                old(self).cap as nat,
                old(self).clamp,
            ),
    {
        let n = self.series.len();
        let mut ds: Vec<i64> = Vec::new();
        let mut i: usize = 0;
        while i < n
            invariant
                i <= n,
                ds@.len() == i,
                self == old(self),
                0 <= self.max_delta,
                forall|k: int| 0 <= k < i ==> -self.max_delta <= #[trigger] ds@[k]
                    <= self.max_delta,
            decreases n - i,
        {
            let d = draw_delta(self.max_delta);
            ds.push(d);
            i = i + 1;
        }
        self.tick_with(&ds, now);
        proof {
            assert forall|k: int| 0 <= k < old(self).series@.len() implies ticked_some(
                old(self).series@[k],
                #[trigger] self.series@[k],
                old(self).max_delta,
                now,
                old(self).cap as nat,
                old(self).clamp,
            ) by {
                let d = ds@[k];
                assert(-old(self).max_delta <= d <= old(self).max_delta && ticked(
                    old(self).series@[k],
                    self.series@[k],
                    d,
                    now,
                    old(self).cap as nat,
                    old(self).clamp,
                ));
            }
        }
    }

    /// A deep, point-in-time copy of every series, safe to hand to a
    /// reader: nothing in it aliases the generator's own storage.
    pub fn snapshot(&self) -> (out: Vec<Series>)
        ensures
            out@.len() == self.series@.len(),
            forall|i: int| 0 <= i < out@.len() ==> series_eq(self.series@[i], #[trigger] out@[i]),
    {
        let mut out: Vec<Series> = Vec::new();
        let mut i: usize = 0;
        while i < self.series.len()
            invariant
                i <= self.series@.len(),
                out@.len() == i,
                forall|k: int| 0 <= k < i ==> series_eq(self.series@[k], #[trigger] out@[k]),
            decreases self.series@.len() - i,
        {
            out.push(self.series[i].duplicate());
            i = i + 1;
        }
        out
    }
}

/// With the non-negative clamp enabled, no value a well-formed generator
/// holds is ever negative — not the current value and not any history
/// entry — however many ticks have run and however far downward the
/// drawn perturbations pulled: each tick re-establishes well-formedness,
/// so this holds in every reachable state.
pub proof fn lemma_clamped_nonnegative(g: Generator)
    requires
        g.wf(),
        g.clamp,
    ensures
        forall|i: int| 0 <= i < g.series@.len() ==> (#[trigger] g.series@[i]).current_value >= 0,
        forall|i: int, j: int|
            0 <= i < g.series@.len() && 0 <= j < g.series@[i].history@.len()
                ==> #[trigger] g.series@[i].history@[j] >= 0,
{
    assert forall|i: int, j: int|
        0 <= i < g.series@.len() && 0 <= j < g.series@[i].history@.len()
            implies #[trigger] g.series@[i].history@[j] >= 0 by {
        assert(series_nonneg(g.series@[i]));
    }
    assert forall|i: int| 0 <= i < g.series@.len() implies (#[trigger] g.series@[i]).current_value
        >= 0 by {
        assert(series_nonneg(g.series@[i]));
    }
}

/// One perturbation step, executed: add and saturate.
pub fn step(v: i64, d: i64, clamp: bool) -> (r: i64)
    requires
        in_range(v),
        -VALUE_LIMIT <= d <= VALUE_LIMIT,
    ensures
        r == step_spec(v, d, clamp),
        in_range(r),
        clamp ==> r >= 0,
{
    let raw = v + d;
    let lo: i64 = if clamp {
        0
    } else {
        -VALUE_LIMIT
    };
    if raw < lo {
        lo
    } else if raw > VALUE_LIMIT {
        VALUE_LIMIT
    } else {
        raw
    }
}

/// Relies on `rand::Rng::gen_range` over the inclusive range
/// `-max..=max`: the sampled value lies within the given bounds, and the
/// range is non-empty, so the call does not panic. Nothing further is
/// assumed: two calls on the same bound may differ.
#[verifier::external_body]
fn draw_delta(max: i64) -> (d: i64)
    requires
        0 <= max,
    ensures
        -max <= d <= max,
{
    rand::thread_rng().gen_range(-max..=max)
}

} // verus!
