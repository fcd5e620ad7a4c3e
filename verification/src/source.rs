//! Model of the document source: a collection is read through a cursor that
//! yields documents in ascending identity order, optionally restricted by
//! the resume filter. The store evaluates the filter server-side; the spec
//! here pins down exactly which identities such a cursor yields, and in what
//! order, so the resume law can be stated against it.

use vstd::prelude::*;
use crate::plan::{DocId, Filter, filter_admits};

verus! {

/// Strictly ascending identity order — the canonical extraction order.
/// Identities are unique, so the order is strict.
pub open spec fn ascending(s: Seq<DocId>) -> bool {
    forall|i: int, j: int| 0 <= i < j < s.len() ==> s[i] < s[j]
}

/// The subsequence of `s` that the filter admits, in the original order:
/// what a cursor opened with that filter yields.
pub open spec fn selected(s: Seq<DocId>, f: Filter) -> Seq<DocId>
    decreases s.len(),
{
    if s.len() == 0 {
        Seq::empty()
    } else {
        let rest = selected(s.drop_last(), f);
        if filter_admits(f, s.last()) {
            rest.push(s.last())
        } else {
            rest
        }
    }
}

/// Appending one element adds exactly that element to the members.
proof fn lemma_push_contains(s: Seq<DocId>, x: DocId)
    ensures
        forall|id: DocId| #[trigger] s.push(x).contains(id) <==> s.contains(id) || id == x,
{
    assert forall|id: DocId| #[trigger] s.push(x).contains(id) implies s.contains(id) || id == x by {
        let i = choose|i: int| 0 <= i < s.push(x).len() && s.push(x)[i] == id;
        if i < s.len() {
            assert(s[i] == id);
        }
    }
    assert forall|id: DocId| s.contains(id) || id == x implies #[trigger] s.push(x).contains(id) by {
        if s.contains(id) {
            let i = choose|i: int| 0 <= i < s.len() && s[i] == id;
            assert(s.push(x)[i] == id);
        } else {
            assert(s.push(x)[s.len() as int] == id);
        }
    }
}

/// A sequence's members are its last element plus the members of the rest.
proof fn lemma_unlast_contains(s: Seq<DocId>)
    requires
        s.len() > 0,
    ensures
        forall|id: DocId| #[trigger] s.contains(id) <==> s.drop_last().contains(id) || id == s.last(),
{
    assert forall|id: DocId| #[trigger] s.contains(id) implies s.drop_last().contains(id) || id
        == s.last() by {
        let i = choose|i: int| 0 <= i < s.len() && s[i] == id;
        if i < s.len() - 1 {
            assert(s.drop_last()[i] == id);
        }
    }
    assert forall|id: DocId| s.drop_last().contains(id) || id == s.last() implies #[trigger] s.contains(
        id,
    ) by {
        if s.drop_last().contains(id) {
            let i = choose|i: int| 0 <= i < s.drop_last().len() && s.drop_last()[i] == id;
            assert(s[i] == id);
        } else {
            assert(s[s.len() - 1] == id);
        }
    }
}

/// A selection holds exactly the identities of the collection that the
/// filter admits.
pub proof fn lemma_selected_members(s: Seq<DocId>, f: Filter)
    ensures
        forall|id: DocId| #[trigger] selected(s, f).contains(id)
            <==> s.contains(id) && filter_admits(f, id),
    decreases s.len(),
{
    if s.len() > 0 {
        lemma_selected_members(s.drop_last(), f);
        lemma_unlast_contains(s);
        let rest = selected(s.drop_last(), f);
        if filter_admits(f, s.last()) {
            lemma_push_contains(rest, s.last());
            assert(selected(s, f) == rest.push(s.last()));
            assert forall|id: DocId| #[trigger] selected(s, f).contains(id)
                <==> s.contains(id) && filter_admits(f, id) by {
                assert(rest.push(s.last()).contains(id) <==> rest.contains(id) || id == s.last());
                assert(rest.contains(id) <==> s.drop_last().contains(id) && filter_admits(f, id));
                assert(s.contains(id) <==> s.drop_last().contains(id) || id == s.last());
            }
        } else {
            assert(selected(s, f) == rest);
            assert forall|id: DocId| #[trigger] selected(s, f).contains(id)
                <==> s.contains(id) && filter_admits(f, id) by {
                assert(rest.contains(id) <==> s.drop_last().contains(id) && filter_admits(f, id));
                assert(s.contains(id) <==> s.drop_last().contains(id) || id == s.last());
            }
        }
    }
}

/// A selection preserves the extraction order: filtering an ascending
/// cursor yields an ascending stream.
pub proof fn lemma_selected_ascending(s: Seq<DocId>, f: Filter)
    requires
        ascending(s),
    ensures
        ascending(selected(s, f)),
    decreases s.len(),
{
    if s.len() > 0 {
        lemma_selected_ascending(s.drop_last(), f);
        lemma_selected_members(s.drop_last(), f);
        let rest = selected(s.drop_last(), f);
        if filter_admits(f, s.last()) {
            assert forall|i: int, j: int|
                0 <= i < j < rest.push(s.last()).len() implies rest.push(s.last())[i] < rest.push(
                s.last(),
            )[j] by {
                if j == rest.len() {
                    assert(rest.contains(rest[i]));
                    assert(s.drop_last().contains(rest[i]));
                    let k = choose|k: int|
                        0 <= k < s.drop_last().len() && s.drop_last()[k] == rest[i];
                    assert(s[k] == rest[i]);
                    assert(s[k] < s[s.len() - 1]);
                }
            }
        }
    }
}

/// What a cursor opened with filter `f` over a collection holding `ids`
/// yields, by identity. The store does this server-side; this verified
/// mirror is the reference the laws and tests run against.
pub fn stream_ids(ids: &Vec<DocId>, f: &Filter) -> (out: Vec<DocId>)
    ensures
        out@ == selected(ids@, *f),
{
    let mut out: Vec<DocId> = Vec::new();
    let mut i: usize = 0;
    while i < ids.len()
        invariant
            i <= ids@.len(),
            out@ == selected(ids@.take(i as int), *f),
        decreases ids@.len() - i,
    {
        proof {
            assert(ids@.take(i + 1).drop_last() =~= ids@.take(i as int));
            assert(ids@.take(i + 1).last() == ids@[i as int]);
        }
        let id = ids[i];
        let admitted = match *f {
            Filter::All => true,
            Filter::IdGreaterThan(k) => id > k,
        };
        if admitted {
            out.push(id);
        }
        i = i + 1;
    }
    proof {
        assert(ids@.take(ids@.len() as int) =~= ids@);
    }
    out
}

} // verus!
