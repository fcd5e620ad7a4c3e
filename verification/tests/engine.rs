use mongodb_stream_rs::counter::LogEvent;
use mongodb_stream_rs::engine::{BulkTransfer, SingleTransfer};
use mongodb_stream_rs::plan::{plan_find, plan_transfer, DocId, TransferOptions};
use mongodb_stream_rs::source::stream_ids;
use mongodb_stream_rs::store::DestStore;
use mongodb_stream_rs::validator::Validator;

#[test]
fn four_thousand_five_hundred_docs_make_three_batches() {
    // 4500 documents at bulk size 2000: exactly three submitted batches of
    // 2000, 2000 and 500, and a final count of 4500/4500.
    let mut eng: BulkTransfer<DocId> = BulkTransfer::new(2000, false, false, 4500);
    let mut batches: Vec<Vec<DocId>> = Vec::new();
    for id in 1..=4500u128 {
        let (batch, _event) = eng.on_doc(id);
        if let Some(b) = batch {
            batches.push(b);
        }
    }
    let (rest, event, counter) = eng.finish();
    batches.push(rest.expect("the final partial batch remains"));
    let sizes: Vec<usize> = batches.iter().map(|b| b.len()).collect();
    assert_eq!(sizes, vec![2000, 2000, 500]);
    assert!(matches!(event, LogEvent::Complete { count: 4500, total: 4500, .. }));
    assert_eq!(counter.count(), 4500);
    assert_eq!(counter.total(), 4500);
}

#[test]
fn submission_preserves_extraction_order() {
    let mut eng: BulkTransfer<DocId> = BulkTransfer::new(10, false, false, 25);
    let mut submitted: Vec<DocId> = Vec::new();
    for id in 0..25u128 {
        if let Some(b) = eng.on_doc(id).0 {
            submitted.extend(b);
        }
    }
    if let (Some(b), _, _) = eng.finish() {
        submitted.extend(b);
    }
    let expected: Vec<DocId> = (0..25u128).collect();
    assert_eq!(submitted, expected);
}

#[test]
fn resumed_run_submits_exactly_the_documents_past_the_marker() {
    // Destination already holds identities 1..=100 of a source numbered
    // 1..=500: the resumed run submits exactly the 400 documents past the
    // marker, ascending, in ordered batches, and validation finds no gaps.
    let mut dest = DestStore::new();
    for id in 1..=100u128 {
        dest.insert_one(id).expect("fresh identity");
    }
    let source_ids: Vec<DocId> = (1..=500u128).collect();

    // Sizing: the resume boundary comes from the destination's newest
    // identity; the filter admits only what lies past it.
    let marker = dest.newest();
    assert_eq!(marker, Some(100));
    let options = TransferOptions {
        bulk_size: None,
        no_bulk: false,
        continue_from: true,
        verbose: false,
    };
    let plan = plan_transfer(&options);
    assert!(plan.ordered);
    assert_eq!(plan.insert_concurrency, 1);
    let find = plan_find(Some(plan.bulk_size), marker);
    let extracted = stream_ids(&source_ids, &find.filter);
    assert_eq!(extracted.len(), 400);
    let total = extracted.len() as u64;

    // Streaming: the bounded resume run flushes its one partial batch as
    // soon as the last expected document arrives.
    let mut eng: BulkTransfer<DocId> =
        BulkTransfer::new(plan.bulk_size as usize, plan.ordered, plan.resume, total);
    let mut submitted: Vec<Vec<DocId>> = Vec::new();
    for id in &extracted {
        if let Some(b) = eng.on_doc(*id).0 {
            submitted.push(b);
        }
    }
    let (rest, _event, counter) = eng.finish();
    assert!(rest.is_none());
    assert_eq!(counter.count(), 400);

    let flat: Vec<DocId> = submitted.iter().flatten().copied().collect();
    let expected: Vec<DocId> = (101..=500u128).collect();
    assert_eq!(flat, expected);

    // Draining: apply every batch in order; nothing is rejected.
    for batch in &submitted {
        assert_eq!(dest.insert_many(batch, plan.ordered), 0);
    }
    assert_eq!(dest.len(), 500);

    // Validation: every destination identity is found in the source.
    let mut v = Validator::new(dest.len() as u64);
    for id in 1..=500u128 {
        assert!(dest.contains_id(id));
        v.on_doc(id, source_ids.contains(&id));
    }
    let (missing, vcounter) = v.finish();
    assert_eq!(missing, Vec::<DocId>::new());
    assert_eq!(vcounter.count(), 500);
}

#[test]
fn one_by_one_mode_counts_every_attempt() {
    let mut s = SingleTransfer::new(3);
    s.on_doc();
    s.on_doc();
    let e = s.on_doc();
    assert!(matches!(e, LogEvent::Complete { count: 3, total: 3, .. }));
    let counter = s.finish();
    assert_eq!(counter.count(), 3);
}
