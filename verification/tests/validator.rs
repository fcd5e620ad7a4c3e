use mongodb_stream_rs::counter::LogEvent;
use mongodb_stream_rs::validator::Validator;

#[test]
fn identical_stores_show_zero_discrepancies() {
    let source: Vec<u128> = vec![1, 2, 3, 4, 5];
    let mut v = Validator::new(source.len() as u64);
    for id in &source {
        v.on_doc(*id, source.contains(id));
    }
    let (missing, counter) = v.finish();
    assert_eq!(missing, Vec::<u128>::new());
    assert_eq!(counter.count(), 5);
}

#[test]
fn exactly_the_extra_identities_are_flagged() {
    // The destination holds 1..=6; the source lacks 2 and 5: exactly those
    // two are flagged, in destination order, and the pass never stops early.
    let source: Vec<u128> = vec![1, 3, 4, 6];
    let destination: Vec<u128> = vec![1, 2, 3, 4, 5, 6];
    let mut v = Validator::new(destination.len() as u64);
    for id in &destination {
        v.on_doc(*id, source.contains(id));
    }
    let (missing, counter) = v.finish();
    assert_eq!(missing, vec![2, 5]);
    assert_eq!(counter.count(), 6);
}

#[test]
fn a_lookup_error_counts_as_a_miss() {
    let mut v = Validator::new(1);
    let e = v.on_doc(9, false);
    assert!(matches!(e, LogEvent::Complete { count: 1, total: 1, .. }));
    let (missing, _) = v.finish();
    assert_eq!(missing, vec![9]);
}
