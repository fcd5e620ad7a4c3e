//! Validation pass for one collection: every document now in the
//! destination is read back in ascending identity order and its identity is
//! looked up in the source. A hit is only noted; a miss (absent, or the
//! lookup failed) is collected and reported. The pass mutates neither store
//! and never stops early on a miss — it runs through the whole destination
//! cursor. The driver does the lookups; the bookkeeping and the verdict
//! live here.

use vstd::prelude::*;
use crate::counter::{Counter, LogEvent, step_event, stepped};
use crate::plan::DocId;

verus! {

/// The identities among `checked` whose lookup missed, in check order.
pub open spec fn missing_of(checked: Seq<(DocId, bool)>) -> Seq<DocId>
    decreases checked.len(),
{
    if checked.len() == 0 {
        Seq::empty()
    } else {
        let rest = missing_of(checked.drop_last());
        if !checked.last().1 {
            rest.push(checked.last().0)
        } else {
            rest
        }
    }
}

/// The identities of the checked documents, in check order.
pub open spec fn checked_ids(checked: Seq<(DocId, bool)>) -> Seq<DocId> {
    checked.map_values(|p: (DocId, bool)| p.0)
}

/// Those of `ids` not present in the source, in order.
pub open spec fn absent_from(ids: Seq<DocId>, src: Set<DocId>) -> Seq<DocId>
    decreases ids.len(),
{
    if ids.len() == 0 {
        Seq::empty()
    } else {
        let rest = absent_from(ids.drop_last(), src);
        if !src.contains(ids.last()) {
            rest.push(ids.last())
        } else {
            rest
        }
    }
}

/// The running state of one validation pass: a progress counter over the
/// destination's document count, the misses collected so far, and the ghost
/// record of every check made.
pub struct Validator {
    /// Progress over the destination's document count.
    pub counter: Counter,
    /// Wall-clock second the pass began, for the reported rate.
    pub start: i64,
    /// Identities checked so far whose source lookup missed.
    pub missing: Vec<DocId>,
    /// Every check made so far: the identity and whether the source had it.
    pub checked: Ghost<Seq<(DocId, bool)>>,
}

impl Validator {
    /// The misses collected are exactly the recorded lookup misses, and the
    /// counter counts the checks.
    pub open spec fn wf(&self) -> bool {
        &&& self.counter.wf()
        &&& self.missing@ == missing_of(self.checked@)
        &&& self.counter.count == self.checked@.len()
    }

    /// A fresh pass over a destination holding `total` documents.
    pub fn new(total: u64) -> (v: Validator)
        ensures
            v.wf(),
            v.checked@ == Seq::<(DocId, bool)>::empty(),
            v.missing@ == Seq::<DocId>::empty(),
            v.counter.count == 0,
            v.counter.total == total,
            v.counter.marker == 0,
            v.counter.finished == false,
    {
        let mut counter = Counter::new();
        counter.set_total(total);
        Validator {
            counter,
            start: crate::clock::now_timestamp(),
            missing: Vec::new(),
            checked: Ghost(Seq::empty()),
        }
    }

    /// One destination document checked: `found` says whether a document
    /// with the same identity was found in the source (a lookup error
    /// counts as a miss). A miss is collected; either way the pass goes on.
    pub fn on_doc(&mut self, id: DocId, found: bool) -> (e: LogEvent)
        requires
            old(self).wf(),
            old(self).checked@.len() < u64::MAX,
        ensures
            final(self).wf(),
            final(self).start == old(self).start,
            final(self).checked@ == old(self).checked@.push((id, found)),
            final(self).missing@ == (if found {
                old(self).missing@
            } else {
                old(self).missing@.push(id)
            }),
            final(self).counter == stepped(old(self).counter, 1),
            exists|rt: u64| e == #[trigger] step_event(old(self).counter, 1, rt),
    {
        proof {
            self.checked@ = self.checked@.push((id, found));
            assert(self.checked@.drop_last() =~= old(self).checked@);
        }
        if !found {
            self.missing.push(id);
        }
        self.counter.incr(1, self.start)
    }

    /// End of the destination cursor: the identities present in the
    /// destination but missing from the source, and the final counts.
    pub fn finish(self) -> (r: (Vec<DocId>, Counter))
        ensures
            r.0@ == self.missing@,
            r.1 == self.counter,
    {
        (self.missing, self.counter)
    }
}

/// Validation law: when every recorded lookup result agrees with source
/// membership, the collected misses are exactly the checked identities
/// absent from the source — in particular none at all when the source holds
/// every checked identity.
pub proof fn lemma_validation_flags_exactly_the_missing(
    checked: Seq<(DocId, bool)>,
    src: Set<DocId>,
)
    requires
        forall|i: int| 0 <= i < checked.len() ==> (#[trigger] checked[i]).1 == src.contains(
            checked[i].0,
        ),
    ensures
        missing_of(checked) == absent_from(checked_ids(checked), src),
        (forall|i: int| 0 <= i < checked.len() ==> src.contains((#[trigger] checked[i]).0))
            ==> missing_of(checked) == Seq::<DocId>::empty(),
    decreases checked.len(),
{
    if checked.len() > 0 {
        lemma_validation_flags_exactly_the_missing(checked.drop_last(), src);
        assert(checked_ids(checked).drop_last() =~= checked_ids(checked.drop_last()));
        assert(checked_ids(checked).last() == checked.last().0);
        assert(checked[checked.len() - 1] == checked.last());
    }
}

} // verus!
