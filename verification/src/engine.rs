//! The streaming half of one collection transfer. Documents extracted from
//! the source cursor are handed in one at a time; the engine gathers them
//! into bounded batches, decides when a batch is ready for submission, and
//! keeps the progress counter in step with what has been submitted. The
//! driver performs the actual inserts (spawned under a permit from the
//! insert-concurrency semaphore), feeds every extracted document here, and
//! skips documents the cursor failed to decode — such a skip touches no
//! state, so it needs no step of its own.

use vstd::prelude::*;
use crate::accumulator::{
    Accumulator, concat_all, lemma_batches_partition_history, lemma_concat_all_push,
};
use crate::counter::{Counter, LogEvent, crosses, step_event, stepped};
use crate::plan::{DocId, Filter};
use crate::source::{ascending, lemma_selected_ascending, lemma_selected_members, selected};

verus! {

/// Batched streaming for one collection: an accumulator for the documents
/// in flight and a counter that advances by each submitted batch's size.
/// Progress reflects "submitted", not "durably confirmed": per-batch insert
/// failures are logged by the driver and never subtracted.
pub struct BulkTransfer<T> {
    /// The bounded buffer being filled.
    pub acc: Accumulator<T>,
    /// Progress over the expected total.
    pub counter: Counter,
    /// Whether submitted batches must be applied in document order
    /// (mandatory under resume).
    pub ordered: bool,
    /// Wall-clock second the transfer began, for the reported rate.
    pub start: i64,
}

impl<T> BulkTransfer<T> {
    /// Every document ever delivered by the cursor, in extraction order.
    pub open spec fn delivered(&self) -> Seq<T> {
        self.acc.history@
    }

    /// Every batch submitted so far, in submission order.
    pub open spec fn submitted(&self) -> Seq<Seq<T>> {
        self.acc.batches@
    }

    /// Documents delivered but not yet part of any submitted batch.
    pub open spec fn pending(&self) -> Seq<T> {
        self.acc.buf@
    }

    /// The accumulator is consistent and the counter counts exactly the
    /// documents submitted so far.
    pub open spec fn wf(&self) -> bool {
        &&& self.acc.wf()
        &&& self.counter.wf()
        &&& self.counter.count == concat_all(self.acc.batches@).len()
    }

    /// A fresh engine for one collection: batches of `bulk_size`, `total`
    /// expected documents. A resume run bounds the accumulator by that
    /// total, so the final partial batch of the bounded run detaches as
    /// soon as the last expected document arrives.
    pub fn new(bulk_size: usize, ordered: bool, resume: bool, total: u64) -> (eng: BulkTransfer<T>)
        requires
            bulk_size > 0,
        ensures
            eng.wf(),
            eng.acc.cap == bulk_size,
            eng.acc.target == (if resume { Some(total) } else { None::<u64> }),
            eng.ordered == ordered,
            eng.delivered() == Seq::<T>::empty(),
            eng.submitted() == Seq::<Seq<T>>::empty(),
            eng.counter.count == 0,
            eng.counter.total == total,
            eng.counter.marker == 0,
            eng.counter.finished == false,
    {
        let mut counter = Counter::new();
        counter.set_total(total);
        let target = if resume { Some(total) } else { None };
        let eng = BulkTransfer {
            acc: Accumulator::new(bulk_size, target),
            counter,
            ordered,
            start: crate::clock::now_timestamp(),
        };
        proof {
            assert(concat_all(eng.acc.batches@).len() == 0);
        }
        eng
    }

    /// One document extracted from the cursor. When it fills the buffer
    /// (or completes a bounded resume run) the detached batch comes back
    /// for submission and the counter advances by its size; the returned
    /// event says what, if anything, to log.
    pub fn on_doc(&mut self, t: T) -> (r: (Option<Vec<T>>, LogEvent))
        requires
            old(self).wf(),
            old(self).acc.pushed < u64::MAX,
        ensures
            final(self).wf(),
            final(self).ordered == old(self).ordered,
            final(self).start == old(self).start,
            final(self).acc.cap == old(self).acc.cap,
            final(self).acc.target == old(self).acc.target,
            final(self).counter.total == old(self).counter.total,
            final(self).delivered() == old(self).delivered().push(t),
            old(self).acc.detach_after_push() ==> (r.0 matches Some(b)
                && b@ == old(self).pending().push(t)
                && final(self).pending() == Seq::<T>::empty()
                && final(self).submitted() == old(self).submitted().push(b@)
                && final(self).counter == stepped(old(self).counter, b@.len() as u64)
                && (exists|rt: u64| r.1 == #[trigger] step_event(old(self).counter, b@.len() as u64, rt))
                && (!(r.1 is Quiet) <==> crosses(old(self).counter, b@.len() as u64))),
            !old(self).acc.detach_after_push() ==> (r.0 is None
                && r.1 == LogEvent::Quiet
                && final(self).pending() == old(self).pending().push(t)
                && final(self).submitted() == old(self).submitted()
                && final(self).counter == old(self).counter),
    {
        match self.acc.push(t) {
            Some(b) => {
                proof {
                    lemma_concat_all_push(old(self).acc.batches@, b@);
                }
                let n = b.len() as u64;
                let e = self.counter.incr(n, self.start);
                (Some(b), e)
            },
            None => (None, LogEvent::Quiet),
        }
    }

    /// End of stream: whatever is still pending comes back as the final
    /// partial batch and the counter advances past it, so the counter ends
    /// at exactly the number of documents delivered. The driver then awaits
    /// every in-flight insert before declaring the collection done.
    pub fn finish(self) -> (r: (Option<Vec<T>>, LogEvent, Counter))
        requires
            self.wf(),
        ensures
            self.pending().len() == 0 ==> (r.0 is None
                && r.1 == LogEvent::Quiet
                && r.2 == self.counter),
            self.pending().len() > 0 ==> (r.0 matches Some(b)
                && b@ == self.pending()
                && r.2 == stepped(self.counter, self.pending().len() as u64)
                && (exists|rt: u64| r.1 == #[trigger] step_event(self.counter, self.pending().len() as u64, rt))),
            r.2.count == self.delivered().len(),
            r.2.total == self.counter.total,
    {
        let BulkTransfer { acc, counter, ordered: _, start } = self;
        let mut counter = counter;
        let rest = acc.finish();
        if rest.len() > 0 {
            let e = counter.incr(rest.len() as u64, start);
            (Some(rest), e, counter)
        } else {
            (None, LogEvent::Quiet, counter)
        }
    }
}

/// One-by-one streaming for one collection: each extracted document is
/// inserted immediately by the driver and counted here. An insert failure
/// is logged and still counted — the attempt advances progress, keeping
/// rate and percent meaningful under partial failure.
pub struct SingleTransfer {
    /// Progress over the expected total.
    pub counter: Counter,
    /// Wall-clock second the transfer began, for the reported rate.
    pub start: i64,
}

impl SingleTransfer {
    /// The counter has not over-reported any whole percent.
    pub open spec fn wf(&self) -> bool {
        self.counter.wf()
    }

    /// A fresh one-by-one engine expecting `total` documents.
    pub fn new(total: u64) -> (s: SingleTransfer)
        ensures
            s.wf(),
            s.counter.count == 0,
            s.counter.total == total,
            s.counter.marker == 0,
            s.counter.finished == false,
    {
        let mut counter = Counter::new();
        counter.set_total(total);
        SingleTransfer { counter, start: crate::clock::now_timestamp() }
    }

    /// One document extracted and handed to the destination.
    pub fn on_doc(&mut self) -> (e: LogEvent)
        requires
            old(self).wf(),
            old(self).counter.count < u64::MAX,
        ensures
            final(self).wf(),
            final(self).start == old(self).start,
            final(self).counter == stepped(old(self).counter, 1),
            exists|rt: u64| e == step_event(old(self).counter, 1, rt),
            !(e is Quiet) <==> crosses(old(self).counter, 1),
    {
        self.counter.incr(1, self.start)
    }

    /// End of stream: the final counts, for the closing log line.
    pub fn finish(self) -> (c: Counter)
        ensures
            c == self.counter,
    {
        self.counter
    }
}

/// Resume law: when the cursor of a resume run has delivered exactly the
/// documents past the marker `k` (the destination's newest identity), the
/// batches submitted so far — followed by whatever is still pending, which
/// [`BulkTransfer::finish`] submits as the final partial batch — are exactly
/// the source documents with identity greater than `k`, in ascending order.
/// Those batches are applied in order: `plan_transfer` forces ordered writes
/// whenever resume is requested.
pub proof fn lemma_resume_submits_exactly_the_tail(
    eng: BulkTransfer<DocId>,
    source_ids: Seq<DocId>,
    k: DocId,
)
    requires
        eng.wf(),
        ascending(source_ids),
        eng.delivered() == selected(source_ids, Filter::IdGreaterThan(k)),
    ensures
        concat_all(eng.submitted()) + eng.pending() == eng.delivered(),
        ascending(concat_all(eng.submitted()) + eng.pending()),
        forall|id: DocId| #[trigger] (concat_all(eng.submitted()) + eng.pending()).contains(id)
            <==> source_ids.contains(id) && id > k,
{
    lemma_batches_partition_history(eng.acc);
    assert(concat_all(eng.submitted()) + eng.pending() == eng.delivered());
    lemma_selected_ascending(source_ids, Filter::IdGreaterThan(k));
    lemma_selected_members(source_ids, Filter::IdGreaterThan(k));
}

} // verus!
