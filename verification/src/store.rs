//! Model of the destination store, by document identity: what an insert of
//! one document or of one batch does, under the duplicate-key rule that an
//! identity already present is rejected and everything else is kept. The
//! two batch disciplines matter to resume: an ordered batch stops at the
//! first rejection — nothing after the failure point is attempted, so the
//! destination's newest identity stays a trustworthy resume boundary — while
//! an unordered batch attempts every item and merely counts the rejections.

use vstd::prelude::*;
use crate::accumulator::{concat_all, lemma_concat_all_push};
use crate::plan::DocId;

verus! {

/// Why the destination rejected a document.
#[derive(Clone, Copy, Debug, PartialEq, Eq, Structural)]
pub enum InsertError {
    /// A document with the same identity is already present.
    DuplicateKey,
}

/// The identities present after attempting every document of `docs` in
/// order (unordered batch: a rejection does not stop the rest).
pub open spec fn apply_unordered(ids: Seq<DocId>, docs: Seq<DocId>) -> Seq<DocId>
    decreases docs.len(),
{
    if docs.len() == 0 {
        ids
    } else {
        let prev = apply_unordered(ids, docs.drop_last());
        if prev.contains(docs.last()) {
            prev
        } else {
            prev.push(docs.last())
        }
    }
}

/// How many documents of `docs` an unordered pass rejects as duplicates.
pub open spec fn rejected_unordered(ids: Seq<DocId>, docs: Seq<DocId>) -> nat
    decreases docs.len(),
{
    if docs.len() == 0 {
        0
    } else {
        rejected_unordered(ids, docs.drop_last()) + (if apply_unordered(
            ids,
            docs.drop_last(),
        ).contains(docs.last()) {
            1nat
        } else {
            0nat
        })
    }
}

/// The identities present after an ordered batch: documents are applied in
/// order until the first rejection, and nothing after it is attempted.
pub open spec fn apply_ordered(ids: Seq<DocId>, docs: Seq<DocId>) -> Seq<DocId>
    decreases docs.len(),
{
    if docs.len() == 0 {
        ids
    } else if ids.contains(docs.first()) {
        ids
    } else {
        apply_ordered(ids.push(docs.first()), docs.drop_first())
    }
}

/// How many leading documents an ordered batch actually writes before it
/// stops.
pub open spec fn ordered_written(ids: Seq<DocId>, docs: Seq<DocId>) -> nat
    decreases docs.len(),
{
    if docs.len() == 0 {
        0
    } else if ids.contains(docs.first()) {
        0
    } else {
        1 + ordered_written(ids.push(docs.first()), docs.drop_first())
    }
}

/// An ordered batch never writes more documents than it holds.
proof fn lemma_ordered_written_le(ids: Seq<DocId>, docs: Seq<DocId>)
    ensures
        ordered_written(ids, docs) <= docs.len(),
    decreases docs.len(),
{
    if docs.len() > 0 && !ids.contains(docs.first()) {
        lemma_ordered_written_le(ids.push(docs.first()), docs.drop_first());
    }
}

/// Ordered writes put down exactly a leading prefix of the batch: every
/// document before the failure point and none after it. This is what makes
/// the destination's newest identity a trustworthy resume boundary when a
/// run is interrupted mid-batch.
pub proof fn lemma_ordered_writes_a_prefix(ids: Seq<DocId>, docs: Seq<DocId>)
    ensures
        apply_ordered(ids, docs) == ids + docs.take(ordered_written(ids, docs) as int),
    decreases docs.len(),
{
    lemma_ordered_written_le(ids, docs);
    if docs.len() == 0 || ids.contains(docs.first()) {
        assert(ids + docs.take(0) =~= ids);
    } else {
        lemma_ordered_writes_a_prefix(ids.push(docs.first()), docs.drop_first());
        let w2 = ordered_written(ids.push(docs.first()), docs.drop_first());
        lemma_ordered_written_le(ids.push(docs.first()), docs.drop_first());
        assert(ids.push(docs.first()) + docs.drop_first().take(w2 as int) =~= ids + docs.take(
            1 + w2 as int,
        ));
    }
}

/// A destination collection, reduced to the identities it holds in write
/// order.
pub struct DestStore {
    /// The identities present, in the order they were written.
    pub ids: Vec<DocId>,
}

impl DestStore {
    /// Identities are unique: the store rejects duplicates, so none get in.
    pub open spec fn wf(&self) -> bool {
        self.ids@.no_duplicates()
    }

    /// An empty destination collection.
    pub fn new() -> (s: DestStore)
        ensures
            s.wf(),
            s.ids@ == Seq::<DocId>::empty(),
    {
        DestStore { ids: Vec::new() }
    }

    /// How many documents the collection holds.
    pub fn len(&self) -> (n: usize)
        ensures
            n == self.ids@.len(),
    {
        self.ids.len()
    }

    /// Whether a document with this identity is present.
    pub fn contains_id(&self, id: DocId) -> (r: bool)
        ensures
            r == self.ids@.contains(id),
    {
        let mut i: usize = 0;
        while i < self.ids.len()
            invariant
                i <= self.ids@.len(),
                forall|j: int| 0 <= j < i ==> self.ids@[j] != id,
            decreases self.ids@.len() - i,
        {
            if self.ids[i] == id {
                return true;
            }
            i = i + 1;
        }
        false
    }

    /// The newest identity the collection holds — the resume boundary — or
    /// nothing if the collection is empty.
    pub fn newest(&self) -> (r: Option<DocId>)
        ensures
            r is None <==> self.ids@.len() == 0,
            r matches Some(m) ==> self.ids@.contains(m) && forall|j: int|
                0 <= j < self.ids@.len() ==> self.ids@[j] <= m,
    {
        if self.ids.len() == 0 {
            return None;
        }
        let mut m = self.ids[0];
        let mut i: usize = 1;
        while i < self.ids.len()
            invariant
                1 <= i <= self.ids@.len(),
                self.ids@.len() > 0,
                self.ids@.contains(m),
                forall|j: int| 0 <= j < i ==> self.ids@[j] <= m,
            decreases self.ids@.len() - i,
        {
            if self.ids[i] > m {
                m = self.ids[i];
                proof {
                    assert(self.ids@[i as int] == m);
                }
            }
            i = i + 1;
        }
        Some(m)
    }

    /// Insert one document: rejected as a duplicate if its identity is
    /// already present, appended otherwise. Returns the written identity,
    /// as the store's single-insert acknowledgement does.
    pub fn insert_one(&mut self, id: DocId) -> (r: Result<DocId, InsertError>)
        ensures
            final(self).ids@ == apply_unordered(old(self).ids@, seq![id]),
            old(self).ids@.contains(id) ==> r == Err::<DocId, InsertError>(
                InsertError::DuplicateKey,
            ) && final(self).ids@ == old(self).ids@,
            !old(self).ids@.contains(id) ==> r == Ok::<DocId, InsertError>(id) && final(self).ids@
                == old(self).ids@.push(id),
            old(self).wf() ==> final(self).wf(),
    {
        proof {
            assert(seq![id].drop_last() =~= Seq::<DocId>::empty());
            assert(apply_unordered(old(self).ids@, Seq::<DocId>::empty()) == old(self).ids@);
        }
        if self.contains_id(id) {
            Err(InsertError::DuplicateKey)
        } else {
            self.ids.push(id);
            proof {
                if old(self).wf() {
                    lemma_no_duplicates_push(old(self).ids@, id);
                }
            }
            Ok(id)
        }
    }

    /// Insert one batch. Unordered: every document is attempted and the
    /// number rejected as duplicates comes back. Ordered: documents are
    /// written in order until the first rejection, which stops the batch
    /// and reports one error, leaving everything after the failure point
    /// unattempted.
    pub fn insert_many(&mut self, docs: &Vec<DocId>, ordered: bool) -> (rejected: u64)
        requires
            docs@.len() <= u64::MAX,
        ensures
            ordered ==> final(self).ids@ == apply_ordered(old(self).ids@, docs@),
            ordered ==> rejected == (if ordered_written(old(self).ids@, docs@) < docs@.len() {
                1u64
            } else {
                0u64
            }),
            !ordered ==> final(self).ids@ == apply_unordered(old(self).ids@, docs@),
            !ordered ==> rejected == rejected_unordered(old(self).ids@, docs@),
            old(self).wf() ==> final(self).wf(),
    {
        if ordered {
            proof {
                assert(docs@.skip(0) =~= docs@);
            }
            let mut i: usize = 0;
            while i < docs.len()
                invariant
                    ordered,
                    i <= docs@.len(),
                    apply_ordered(old(self).ids@, docs@) == apply_ordered(
                        self.ids@,
                        docs@.skip(i as int),
                    ),
                    ordered_written(old(self).ids@, docs@) == i + ordered_written(
                        self.ids@,
                        docs@.skip(i as int),
                    ),
                    old(self).wf() ==> self.wf(),
                decreases docs@.len() - i,
            {
                proof {
                    assert(docs@.skip(i as int).first() == docs@[i as int]);
                    assert(docs@.skip(i as int).drop_first() =~= docs@.skip(i + 1));
                }
                if self.contains_id(docs[i]) {
                    proof {
                        assert(apply_ordered(self.ids@, docs@.skip(i as int)) == self.ids@);
                        assert(ordered_written(self.ids@, docs@.skip(i as int)) == 0);
                    }
                    return 1;
                }
                proof {
                    if old(self).wf() {
                        lemma_no_duplicates_push(self.ids@, docs@[i as int]);
                    }
                }
                self.ids.push(docs[i]);
                i = i + 1;
            }
            proof {
                assert(docs@.skip(docs@.len() as int) =~= Seq::<DocId>::empty());
            }
            0
        } else {
            let mut rejected: u64 = 0;
            let mut i: usize = 0;
            while i < docs.len()
                invariant
                    !ordered,
                    i <= docs@.len(),
                    docs@.len() <= u64::MAX,
                    rejected <= i,
                    self.ids@ == apply_unordered(old(self).ids@, docs@.take(i as int)),
                    rejected == rejected_unordered(old(self).ids@, docs@.take(i as int)),
                    old(self).wf() ==> self.wf(),
                decreases docs@.len() - i,
            {
                proof {
                    assert(docs@.take(i + 1).drop_last() =~= docs@.take(i as int));
                    assert(docs@.take(i + 1).last() == docs@[i as int]);
                }
                if self.contains_id(docs[i]) {
                    rejected = rejected + 1;
                } else {
                    proof {
                        if old(self).wf() {
                            lemma_no_duplicates_push(self.ids@, docs@[i as int]);
                        }
                    }
                    self.ids.push(docs[i]);
                }
                i = i + 1;
            }
            proof {
                assert(docs@.take(docs@.len() as int) =~= docs@);
            }
            rejected
        }
    }
}

/// Appending an identity that is not yet present keeps the identities
/// unique.
proof fn lemma_no_duplicates_push(ids: Seq<DocId>, id: DocId)
    requires
        ids.no_duplicates(),
        !ids.contains(id),
    ensures
        ids.push(id).no_duplicates(),
{
    assert forall|i: int, j: int|
        0 <= i < ids.push(id).len() && 0 <= j < ids.push(id).len() && i != j implies ids.push(
        id,
    )[i] != ids.push(id)[j] by {
        if i < ids.len() && j < ids.len() {
        } else if i < ids.len() {
            assert(ids[i] == ids.push(id)[i]);
            if ids[i] == id {
                assert(ids.contains(ids[i]));
            }
        } else if j < ids.len() {
            assert(ids[j] == ids.push(id)[j]);
            if ids[j] == id {
                assert(ids.contains(ids[j]));
            }
        }
    }
}

/// Unordered application distributes over concatenation: inserting batch
/// after batch is the same one-document-at-a-time pass as inserting their
/// concatenation.
pub proof fn lemma_apply_unordered_append(ids: Seq<DocId>, a: Seq<DocId>, b: Seq<DocId>)
    ensures
        apply_unordered(ids, a + b) == apply_unordered(apply_unordered(ids, a), b),
        rejected_unordered(ids, a + b) == rejected_unordered(ids, a) + rejected_unordered(
            apply_unordered(ids, a),
            b,
        ),
    decreases b.len(),
{
    if b.len() == 0 {
        assert(a + b =~= a);
    } else {
        lemma_apply_unordered_append(ids, a, b.drop_last());
        assert((a + b).drop_last() =~= a + b.drop_last());
        assert((a + b).last() == b.last());
    }
}

/// Idempotence law: a full re-run over a destination that already holds
/// every submitted document changes nothing — every document is rejected as
/// a duplicate and the collection is exactly as it was.
pub proof fn lemma_rerun_changes_nothing(ids: Seq<DocId>, docs: Seq<DocId>)
    requires
        forall|i: int| 0 <= i < docs.len() ==> ids.contains(#[trigger] docs[i]),
    ensures
        apply_unordered(ids, docs) == ids,
        rejected_unordered(ids, docs) == docs.len(),
    decreases docs.len(),
{
    if docs.len() > 0 {
        lemma_rerun_changes_nothing(ids, docs.drop_last());
        assert(docs[docs.len() - 1] == docs.last());
    }
}

/// The identities present after the unordered batches of a whole run are
/// applied, batch after batch.
pub open spec fn apply_unordered_all(ids: Seq<DocId>, batches: Seq<Seq<DocId>>) -> Seq<DocId>
    decreases batches.len(),
{
    if batches.len() == 0 {
        ids
    } else {
        apply_unordered(apply_unordered_all(ids, batches.drop_last()), batches.last())
    }
}

/// How many duplicate-key rejections that whole run collects.
pub open spec fn rejected_unordered_all(ids: Seq<DocId>, batches: Seq<Seq<DocId>>) -> nat
    decreases batches.len(),
{
    if batches.len() == 0 {
        0
    } else {
        rejected_unordered_all(ids, batches.drop_last()) + rejected_unordered(
            apply_unordered_all(ids, batches.drop_last()),
            batches.last(),
        )
    }
}

/// A batched unordered run is one document-at-a-time pass over the
/// concatenation of its batches: batch boundaries change nothing about
/// what an unordered run writes.
pub proof fn lemma_batched_run_is_one_pass(ids: Seq<DocId>, batches: Seq<Seq<DocId>>)
    ensures
        apply_unordered_all(ids, batches) == apply_unordered(ids, concat_all(batches)),
    decreases batches.len(),
{
    if batches.len() > 0 {
        lemma_batched_run_is_one_pass(ids, batches.drop_last());
        lemma_apply_unordered_append(ids, concat_all(batches.drop_last()), batches.last());
        lemma_concat_all_push(batches.drop_last(), batches.last());
        assert(batches.drop_last().push(batches.last()) =~= batches);
    }
}

/// Idempotence law, at the level of a whole batched run: re-running a
/// non-resume transfer — one unordered batch after another — over a
/// destination that already holds every submitted document leaves the
/// destination exactly as it was, with one duplicate-key rejection per
/// submitted document and nothing else: no crash, no data loss.
pub proof fn lemma_batched_rerun_changes_nothing(ids: Seq<DocId>, batches: Seq<Seq<DocId>>)
    requires
        forall|i: int, j: int|
            0 <= i < batches.len() && 0 <= j < batches[i].len() ==> ids.contains(
                #[trigger] batches[i][j],
            ),
    ensures
        apply_unordered_all(ids, batches) == ids,
        rejected_unordered_all(ids, batches) == concat_all(batches).len(),
    decreases batches.len(),
{
    if batches.len() > 0 {
        lemma_batched_rerun_changes_nothing(ids, batches.drop_last());
        assert(batches[batches.len() - 1] == batches.last());
        lemma_rerun_changes_nothing(ids, batches.last());
        lemma_concat_all_push(batches.drop_last(), batches.last());
        assert(batches.drop_last().push(batches.last()) =~= batches);
    }
}

} // verus!
