//! One tracked series: an instrument's latest value, the time it was last
//! touched, and a bounded rolling history of its most recent values.
use vstd::prelude::*;

verus! {

/// Largest magnitude a series value may take, in hundredths of a unit.
/// Values saturate here so that sums over a full history fit in `i64`.
pub const VALUE_LIMIT: i64 = 1_000_000_000_000;

/// Largest history capacity the pipeline accepts.
pub const CAP_LIMIT: usize = 1_000_000;

/// A value the pipeline is willing to hold: bounded so that any sum of a
/// history of at most `CAP_LIMIT` values cannot overflow an `i64`.
pub open spec fn in_range(v: i64) -> bool {
    -VALUE_LIMIT <= v <= VALUE_LIMIT
}

/// A bounded append: push `v`, then evict the oldest entries until the
/// history is back within `cap` (at most one eviction when the history
/// already respects the cap).
pub open spec fn push_evict(h: Seq<i64>, v: i64, cap: nat) -> Seq<i64> {
    let p = h.push(v);
    if p.len() <= cap {
        p
    } else {
        p.subrange(p.len() - cap, p.len() as int)
    }
}

/// The history left after recording a whole sequence of values in order,
/// starting from `init`, under the bounded-append policy.
pub open spec fn run_history(init: Seq<i64>, vals: Seq<i64>, cap: nat) -> Seq<i64>
    decreases vals.len(),
{
    if vals.len() == 0 {
        init
    } else {
        run_history(push_evict(init, vals[0], cap), vals.subrange(1, vals.len() as int), cap)
    }
}

/// However many values are recorded, a history that started within its
/// cap never exceeds the cap, and what remains is exactly the most
/// recent values, in time order: the last `cap` of everything ever seen,
/// or all of it when fewer have been seen.
pub proof fn lemma_history_recent_suffix(init: Seq<i64>, vals: Seq<i64>, cap: nat)
    requires
        init.len() <= cap,
    ensures
        ({
            let all = init + vals;
            let keep: int = if all.len() <= cap {
                all.len() as int
            } else {
                cap as int
            };
            run_history(init, vals, cap) == all.subrange(all.len() - keep, all.len() as int)
        }),
        run_history(init, vals, cap).len() <= cap,
    decreases vals.len(),
{
    let all = init + vals;
    let keep: int = if all.len() <= cap {
        all.len() as int
    } else {
        cap as int
    };
    if vals.len() == 0 {
        assert(all =~= init);
        assert(run_history(init, vals, cap) =~= all.subrange(all.len() - keep, all.len() as int));
    } else {
        let h1 = push_evict(init, vals[0], cap);
        let rest = vals.subrange(1, vals.len() as int);
        assert(h1.len() <= cap);
        lemma_history_recent_suffix(h1, rest, cap);
        let all1 = h1 + rest;
        let keep1: int = if all1.len() <= cap {
            all1.len() as int
        } else {
            cap as int
        };
        assert(keep1 == keep);
        assert(run_history(init, vals, cap) == run_history(h1, rest, cap));
        assert(all1.subrange(all1.len() - keep1, all1.len() as int) =~= all.subrange(
            all.len() - keep,
            all.len() as int,
        ));
    }
}

/// A snapshot of a well-formed collection is entry-wise consistent: for
/// every copied entry the id matches its position, the history is full,
/// and the latest history entry is the current value. A reader therefore
/// never sees an entry whose fields mix two different updates: each
/// update rewrites value, timestamp and history together, and the copy
/// reproduces one entry whole.
pub proof fn lemma_snapshot_consistent(src: Seq<Series>, out: Seq<Series>, cap: nat)
    requires
        1 <= cap,
        forall|i: int| 0 <= i < src.len() ==> series_wf(#[trigger] src[i], cap),
        forall|i: int| 0 <= i < src.len() ==> (#[trigger] src[i]).history@.len() == cap,
        forall|i: int| 0 <= i < src.len() ==> (#[trigger] src[i]).id == i,
        out.len() == src.len(),
        forall|i: int| 0 <= i < out.len() ==> series_eq(src[i], #[trigger] out[i]),
    ensures
        forall|i: int| 0 <= i < out.len() ==> (#[trigger] out[i]).id == i,
        forall|i: int| 0 <= i < out.len() ==> (#[trigger] out[i]).history@.len() == cap,
        forall|i: int| 0 <= i < out.len() ==> (#[trigger] out[i]).history@.last()
            == out[i].current_value,
{
    assert forall|i: int| 0 <= i < out.len() implies (#[trigger] out[i]).id == i
        && out[i].history@.len() == cap && out[i].history@.last() == out[i].current_value by {
        assert(series_wf(src[i], cap));
        assert(series_eq(src[i], out[i]));
    }
}

/// One series: a raw instrument feed or a derived signal, identified by a
/// small integer id assigned in creation order.
pub struct Series {
    /// Stable identifier, equal to the series' index in its collection.
    pub id: usize,
    /// Latest value, fixed-point hundredths of a unit.
    pub current_value: i64,
    /// Nanosecond timestamp of the most recent mutation.
    pub last_update: u64,
    /// The most recent values, oldest first, at most the cap in length.
    pub history: Vec<i64>,
}

/// Well-formedness of one series under a history cap: the history respects
/// the cap, every held value is in range, and the latest appended value is
/// the current one, so a reader never sees the fields disagree.
pub open spec fn series_wf(s: Series, cap: nat) -> bool {
    &&& s.history@.len() <= cap
    &&& forall|i: int| 0 <= i < s.history@.len() ==> in_range(s.history@[i])
    &&& in_range(s.current_value)
    &&& s.history@.len() > 0 ==> s.history@.last() == s.current_value
}

/// Field-wise equality of two series, histories compared by contents.
pub open spec fn series_eq(a: Series, b: Series) -> bool {
    &&& a.id == b.id
    &&& a.current_value == b.current_value
    &&& a.last_update == b.last_update
    &&& a.history@ == b.history@
}

impl Series {
    /// A fresh series whose history is pre-filled to the cap with the
    /// initial value, as the live feed starts from a flat line.
    pub fn new(id: usize, initial: i64, cap: usize, now: u64) -> (s: Series)
        requires
            in_range(initial),
            cap <= CAP_LIMIT,
        ensures
            s.id == id,
            s.current_value == initial,
            s.last_update == now,
            s.history@ == Seq::<i64>::new(cap as nat, |i: int| initial),
            series_wf(s, cap as nat),
    {
        let mut h: Vec<i64> = Vec::new();
        let mut k: usize = 0;
        while k < cap
            invariant
                k <= cap,
                h@ =~= Seq::<i64>::new(k as nat, |i: int| initial),
            decreases cap - k,
        {
            h.push(initial);
            k = k + 1;
        }
        proof {
            assert(h@ =~= Seq::<i64>::new(cap as nat, |i: int| initial));
        }
        Series { id, current_value: initial, last_update: now, history: h }
    }

    /// Record a new latest value at time `now`: set the fields and append
    /// to the history, evicting the oldest entry if the cap is exceeded.
    pub fn record(&mut self, v: i64, now: u64, cap: usize)
        requires
            series_wf(*old(self), cap as nat),
            in_range(v),
            1 <= cap,
        ensures
            final(self).id == old(self).id,
            final(self).current_value == v,
            final(self).last_update == now,
            final(self).history@ == push_evict(old(self).history@, v, cap as nat),
            series_wf(*final(self), cap as nat),
    {
        self.current_value = v;
        self.last_update = now;
        self.history.push(v);
        if self.history.len() > cap {
            self.history.remove(0);
            proof {
                let p = old(self).history@.push(v);
                assert(self.history@ =~= p.subrange(p.len() - cap, p.len() as int));
            }
        }
    }

    /// A deep copy: same fields, same history contents, sharing nothing.
    pub fn duplicate(&self) -> (out: Series)
        ensures
            series_eq(*self, out),
    {
        let mut h: Vec<i64> = Vec::new();
        let mut k: usize = 0;
        while k < self.history.len()
            invariant
                k <= self.history@.len(),
                h@ =~= self.history@.subrange(0, k as int),
            decreases self.history@.len() - k,
        {
            h.push(self.history[k]);
            k = k + 1;
        }
        proof {
            assert(h@ =~= self.history@);
        }
        Series {
            id: self.id,
            current_value: self.current_value,
            last_update: self.last_update,
            history: h,
        }
    }
}

} // verus!
