//! Progress tracker for one collection transfer: a running count of items
//! processed, the expected total, and a whole-percent marker that decides
//! when a progress line is worth emitting. Pure bookkeeping: the caller does
//! the actual logging from the returned [`LogEvent`].

use vstd::prelude::*;

verus! {

/// What one call to [`Counter::incr`] asks the caller to log.
#[derive(Clone, Copy, Debug, PartialEq, Eq, Structural)]
pub enum LogEvent {
    /// Nothing worth reporting.
    Quiet,
    /// The whole-percent marker was crossed: emit one progress line.
    /// `catching_up` is set when the count has already passed the expected
    /// total (the source grew during the run).
    Progress { percent: u128, rate: u64, count: u64, total: u64, catching_up: bool },
    /// The count reached (or jumped past) the total: emit the one completion
    /// line. Reported at most once per counter.
    Complete { rate: u64, count: u64, total: u64 },
}

/// Per-transfer progress state. `count` never decreases; `total` is set once
/// before streaming begins; `marker` is the last whole percent already
/// reported; `finished` guards the completion line so it fires exactly once.
#[derive(Clone, Copy, Debug, PartialEq, Eq, Structural)]
pub struct Counter {
    pub count: u64,
    pub total: u64,
    pub marker: u128,
    pub finished: bool,
}

/// Percent of the total reached once `n` more items are counted
/// (floor division; meaningful only when `c.total > 0`).
pub open spec fn percent_after(c: Counter, n: u64) -> int {
    (c.count + n) * 100 / (c.total as int)
}

/// Counting `n` more items reaches the total for the first time.
pub open spec fn completes(c: Counter, n: u64) -> bool {
    c.total > 0 && !c.finished && c.count + n >= c.total
}

/// Counting `n` more items moves the percentage past the reported marker.
pub open spec fn crosses(c: Counter, n: u64) -> bool {
    c.total > 0 && percent_after(c, n) > c.marker
}

/// The counter state after one increment of `n`.
pub open spec fn stepped(c: Counter, n: u64) -> Counter {
    Counter {
        count: (c.count + n) as u64,
        total: c.total,
        marker: if !completes(c, n) && crosses(c, n) { (c.marker + 1) as u128 } else { c.marker },
        finished: c.finished || completes(c, n),
    }
}

/// The event one increment of `n` reports, given the measured `rate`.
pub open spec fn step_event(c: Counter, n: u64, rate: u64) -> LogEvent {
    if completes(c, n) {
        LogEvent::Complete { rate, count: (c.count + n) as u64, total: c.total }
    } else if crosses(c, n) {
        LogEvent::Progress {
            percent: percent_after(c, n) as u128,
            rate,
            count: (c.count + n) as u64,
            total: c.total,
            catching_up: c.count + n > c.total,
        }
    } else {
        LogEvent::Quiet
    }
}

/// Items per elapsed second, with a degenerate clock (elapsed <= 0) read as
/// one second.
pub open spec fn rate_at(count: u64, now: i64, start: i64) -> u64 {
    if now - start > 0 {
        (count as int / (now - start)) as u64
    } else {
        count
    }
}

/// The sum of a sequence of increments.
pub open spec fn sum_of(ns: Seq<u64>) -> int
    decreases ns.len(),
{
    if ns.len() == 0 {
        0
    } else {
        sum_of(ns.drop_last()) + ns.last()
    }
}

/// The counter state after a whole sequence of increments.
pub open spec fn stepped_all(c: Counter, ns: Seq<u64>) -> Counter
    decreases ns.len(),
{
    if ns.len() == 0 {
        c
    } else {
        stepped(stepped_all(c, ns.drop_last()), ns.last())
    }
}

impl Counter {
    /// A counter that has not reported past any whole percent yet.
    pub open spec fn wf(&self) -> bool {
        !self.finished ==> self.marker < 100
    }

    /// A fresh counter: nothing counted, total not yet known.
    pub fn new() -> (c: Counter)
        ensures
            c == (Counter { count: 0u64, total: 0u64, marker: 0u128, finished: false }),
            c.wf(),
    {
        Counter { count: 0, total: 0, marker: 0, finished: false }
    }

    /// One-time initialization of the expected total, before any counting.
    pub fn set_total(&mut self, total: u64)
        requires
            old(self).count == 0,
        ensures
            final(self).count == old(self).count,
            final(self).total == total,
            final(self).marker == old(self).marker,
            final(self).finished == old(self).finished,
            old(self).wf() ==> final(self).wf(),
    {
        self.total = total;
    }

    /// Items counted so far.
    pub fn count(&self) -> (r: u64)
        ensures
            r == self.count,
    {
        self.count
    }

    /// Expected number of items.
    pub fn total(&self) -> (r: u64)
        ensures
            r == self.total,
    {
        self.total
    }

    /// Count `n` more items against the clock reading `now`, taken `start`
    /// seconds-since-epoch after the transfer began. Reports exactly one of:
    /// nothing, a progress line (the percentage crossed the marker), or the
    /// single completion line (the count reached the total). With an unset
    /// total (`total == 0`, "0 expected documents") no percentage exists and
    /// the counter stays quiet.
    pub fn incr_at(&mut self, n: u64, now: i64, start: i64) -> (e: LogEvent)
        requires
            old(self).count + n <= u64::MAX,
        ensures
            *final(self) == stepped(*old(self), n),
            e == step_event(*old(self), n, rate_at(stepped(*old(self), n).count, now, start)),
            old(self).wf() ==> final(self).wf(),
            old(self).wf() ==> (!(e is Quiet) <==> crosses(*old(self), n)),
    {
        proof {
            let c = *old(self);
            if c.total > 0 {
                assert((c.count + n) * 100 / (c.total as int) >= 0) by (nonlinear_arith)
                    requires c.total > 0 && c.count + n >= 0;
                if c.count + n >= c.total {
                    assert((c.count + n) * 100 / (c.total as int) >= 100) by (nonlinear_arith)
                        requires c.total > 0 && c.count + n >= c.total;
                }
                if c.count + n < c.total {
                    assert((c.count + n) * 100 / (c.total as int) < 100) by (nonlinear_arith)
                        requires c.total > 0 && 0 <= c.count + n < c.total;
                }
            }
        }
        self.count = self.count + n;
        if self.total == 0 {
            return LogEvent::Quiet;
        }
        let delta: i128 = now as i128 - start as i128;
        let rate: u64 = if delta > 0 {
            proof {
                assert((self.count as i128) / delta <= self.count as i128) by (nonlinear_arith)
                    requires delta > 0 && self.count as i128 >= 0;
            }
            ((self.count as i128) / delta) as u64
        } else {
            self.count
        };
        let percent: u128 = (self.count as u128) * 100 / (self.total as u128);
        if self.count >= self.total && !self.finished {
            self.finished = true;
            LogEvent::Complete { rate, count: self.count, total: self.total }
        } else if percent > self.marker {
            self.marker = self.marker + 1;
            LogEvent::Progress {
                percent,
                rate,
                count: self.count,
                total: self.total,
                catching_up: self.count > self.total,
            }
        } else {
            LogEvent::Quiet
        }
    }

    /// [`Counter::incr_at`] against the wall clock. The rate in the reported
    /// event depends on the clock and is not pinned down; everything else is.
    pub fn incr(&mut self, n: u64, start: i64) -> (e: LogEvent)
        requires
            old(self).count + n <= u64::MAX,
        ensures
            *final(self) == stepped(*old(self), n),
            exists|r: u64| e == step_event(*old(self), n, r),
            old(self).wf() ==> final(self).wf(),
            old(self).wf() ==> (!(e is Quiet) <==> crosses(*old(self), n)),
    {
        let now = crate::clock::now_timestamp();
        self.incr_at(n, now, start)
    }
}

/// Every increment is non-negative, so so is any sum of them.
proof fn lemma_sum_of_nonneg(ns: Seq<u64>)
    ensures
        sum_of(ns) >= 0,
    decreases ns.len(),
{
    if ns.len() > 0 {
        lemma_sum_of_nonneg(ns.drop_last());
    }
}

/// Progress Tracker law: over any sequence of increments, the count after
/// all of them is exactly the starting count plus the sum of the increments.
pub proof fn lemma_count_is_sum_of_increments(c: Counter, ns: Seq<u64>)
    requires
        c.count + sum_of(ns) <= u64::MAX,
    ensures
        stepped_all(c, ns).count == c.count + sum_of(ns),
    decreases ns.len(),
{
    if ns.len() > 0 {
        lemma_sum_of_nonneg(ns.drop_last());
        lemma_count_is_sum_of_increments(c, ns.drop_last());
    }
}

} // verus!
