//! Batch accumulator: documents are pushed one at a time into a bounded
//! buffer; when the buffer reaches the configured bulk size the full buffer
//! is detached — handed to the caller by ownership transfer, with a fresh
//! empty buffer swapped in so no document is copied. A bounded run (one with
//! a known remaining total) also detaches early once every expected document
//! has been pushed, so its final partial batch is not left stranded.

use vstd::prelude::*;
use vstd::arithmetic::div_mod::lemma_fundamental_div_mod_converse_div;

verus! {

/// All the detached batches, flattened in detach order.
pub open spec fn concat_all<T>(bs: Seq<Seq<T>>) -> Seq<T>
    decreases bs.len(),
{
    if bs.len() == 0 {
        Seq::empty()
    } else {
        concat_all(bs.drop_last()) + bs.last()
    }
}

/// Appending one more batch extends the flattening by exactly that batch.
pub proof fn lemma_concat_all_push<T>(bs: Seq<Seq<T>>, b: Seq<T>)
    ensures
        concat_all(bs.push(b)) == concat_all(bs) + b,
{
    assert(bs.push(b).drop_last() =~= bs);
    assert(bs.push(b).last() == b);
}

/// If every batch has length `k`, the flattening has length `len * k`.
proof fn lemma_concat_all_len_uniform<T>(bs: Seq<Seq<T>>, k: int)
    requires
        forall|i: int| 0 <= i < bs.len() ==> #[trigger] bs[i].len() == k,
    ensures
        concat_all(bs).len() == bs.len() * k,
    decreases bs.len(),
{
    if bs.len() > 0 {
        lemma_concat_all_len_uniform(bs.drop_last(), k);
        assert((bs.len() - 1) * k + k == bs.len() * k) by (nonlinear_arith);
    }
}

/// A bounded buffer of documents plus the ghost record of everything it has
/// seen: `history` is every document ever pushed, `batches` every batch
/// detached so far, in order. A buffer is either being filled or has just
/// been detached and replaced — never both, because detaching transfers
/// ownership of the full `Vec` to the caller.
pub struct Accumulator<T> {
    /// The buffer currently being filled.
    pub buf: Vec<T>,
    /// Bulk size: a detach happens exactly when the buffer reaches it.
    pub cap: usize,
    /// How many documents have ever been pushed.
    pub pushed: u64,
    /// Known total of a bounded run: once `pushed` reaches it, every push
    /// detaches, so the final partial batch goes out at once.
    pub target: Option<u64>,
    /// Every document ever pushed, in order.
    pub history: Ghost<Seq<T>>,
    /// Every batch detached so far, in order.
    pub batches: Ghost<Seq<Seq<T>>>,
}

impl<T> Accumulator<T> {
    /// The accumulator's bookkeeping is consistent: the detached batches
    /// followed by the current buffer are exactly the pushed documents, no
    /// batch is empty, and without an early-flush target every batch is full.
    pub open spec fn wf(&self) -> bool {
        &&& self.cap > 0
        &&& self.buf@.len() < self.cap
        &&& self.pushed == self.history@.len()
        &&& concat_all(self.batches@) + self.buf@ == self.history@
        &&& forall|i: int| 0 <= i < self.batches@.len() ==> #[trigger] self.batches@[i].len() > 0
        &&& self.target is None ==> forall|i: int|
            0 <= i < self.batches@.len() ==> #[trigger] self.batches@[i].len() == self.cap
    }

    /// Pushing one more document will fill the buffer, or will reach a
    /// bounded run's known total.
    pub open spec fn detach_after_push(&self) -> bool {
        self.buf@.len() + 1 >= self.cap
        || (self.target matches Some(t) && self.history@.len() + 1 >= t)
    }

    /// An empty accumulator for batches of `cap` documents.
    pub fn new(cap: usize, target: Option<u64>) -> (a: Accumulator<T>)
        requires
            cap > 0,
        ensures
            a.wf(),
            a.cap == cap,
            a.target == target,
            a.buf@ == Seq::<T>::empty(),
            a.history@ == Seq::<T>::empty(),
            a.batches@ == Seq::<Seq<T>>::empty(),
    {
        let a = Accumulator {
            buf: Vec::with_capacity(cap),
            cap,
            pushed: 0,
            target,
            history: Ghost(Seq::empty()),
            batches: Ghost(Seq::empty()),
        };
        proof {
            assert(concat_all(a.batches@) + a.buf@ =~= a.history@);
        }
        a
    }

    /// Append one document. Returns the detached full buffer exactly when
    /// the push makes the buffer reach the bulk size (or reaches a bounded
    /// run's total); a fresh empty buffer then takes its place without any
    /// document being copied.
    pub fn push(&mut self, t: T) -> (r: Option<Vec<T>>)
        requires
            old(self).wf(),
            old(self).pushed < u64::MAX,
        ensures
            final(self).wf(),
            final(self).cap == old(self).cap,
            final(self).target == old(self).target,
            final(self).pushed == old(self).pushed + 1,
            final(self).history@ == old(self).history@.push(t),
            old(self).detach_after_push() ==> (r matches Some(b)
                && b@ == old(self).buf@.push(t)
                && final(self).buf@ == Seq::<T>::empty()
                && final(self).batches@ == old(self).batches@.push(old(self).buf@.push(t))),
            !old(self).detach_after_push() ==> (r is None
                && final(self).buf@ == old(self).buf@.push(t)
                && final(self).batches@ == old(self).batches@),
    {
        self.buf.push(t);
        self.pushed = self.pushed + 1;
        proof {
            self.history@ = self.history@.push(t);
            assert(concat_all(self.batches@) + self.buf@ =~= self.history@);
        }
        let reached_total = match self.target {
            Some(limit) => self.pushed >= limit,
            None => false,
        };
        if self.buf.len() >= self.cap || reached_total {
            let mut full: Vec<T> = Vec::with_capacity(self.cap);
            core::mem::swap(&mut self.buf, &mut full);
            proof {
                self.batches@ = self.batches@.push(full@);
                lemma_concat_all_push(old(self).batches@, full@);
                assert(concat_all(self.batches@) + self.buf@ =~= self.history@);
            }
            Some(full)
        } else {
            None
        }
    }

    /// End of stream: hand back whatever remains in the buffer. The
    /// orchestrator, not the accumulator, submits it as the final partial
    /// batch.
    pub fn finish(self) -> (r: Vec<T>)
        ensures
            r@ == self.buf@,
    {
        self.buf
    }
}

/// Batch Accumulator law: the detached batches plus the current remainder
/// account for every pushed document exactly, and — when no early-flush
/// target is set — every detached batch is exactly full, so the number of
/// detach events is the number of pushed documents divided by the bulk size,
/// rounded down.
pub proof fn lemma_batches_partition_history<T>(a: Accumulator<T>)
    requires
        a.wf(),
    ensures
        concat_all(a.batches@) + a.buf@ == a.history@,
        a.target is None ==> concat_all(a.batches@).len() == a.batches@.len() * a.cap,
        a.target is None ==> a.batches@.len() == a.history@.len() as int / a.cap as int,
{
    if a.target is None {
        lemma_concat_all_len_uniform(a.batches@, a.cap as int);
        lemma_fundamental_div_mod_converse_div(
            a.history@.len() as int,
            a.cap as int,
            a.batches@.len() as int,
            a.buf@.len() as int,
        );
    }
}

} // verus!
