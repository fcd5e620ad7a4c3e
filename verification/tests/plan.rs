use mongodb_stream_rs::plan::{
    plan_find, plan_fleet, plan_transfer, ConfigError, CountKind, Filter, TransferOptions,
};

fn options(bulk: Option<u64>, no_bulk: bool, continue_from: bool) -> TransferOptions {
    TransferOptions { bulk_size: bulk, no_bulk, continue_from, verbose: false }
}

#[test]
fn bulk_size_defaults_to_two_thousand() {
    let p = plan_transfer(&options(None, false, false));
    assert_eq!(p.bulk_size, 2000);
    assert!(!p.single);
}

#[test]
fn resume_forces_ordered_writes_and_one_insert_at_a_time() {
    let p = plan_transfer(&options(Some(500), false, true));
    assert!(p.resume);
    assert!(p.ordered);
    assert_eq!(p.insert_concurrency, 1);
}

#[test]
fn plain_run_uses_unordered_writes_and_four_inserts_at_once() {
    let p = plan_transfer(&options(Some(500), false, false));
    assert!(!p.resume);
    assert!(!p.ordered);
    assert_eq!(p.insert_concurrency, 4);
}

#[test]
fn single_item_mode_follows_the_flag() {
    let p = plan_transfer(&options(None, true, false));
    assert!(p.single);
}

#[test]
fn cursor_batch_size_is_capped_at_6400() {
    let p = plan_find(Some(10000), None);
    assert_eq!(p.batch_size, Some(6400));
    let q = plan_find(Some(2000), None);
    assert_eq!(q.batch_size, Some(2000));
    let r = plan_find(None, None);
    assert_eq!(r.batch_size, None);
}

#[test]
fn resume_marker_becomes_a_strict_lower_bound_with_an_exact_count() {
    let p = plan_find(Some(2000), Some(42));
    assert_eq!(p.filter, Filter::IdGreaterThan(42));
    assert_eq!(p.count_kind, CountKind::Filtered);
    let q = plan_find(Some(2000), None);
    assert_eq!(q.filter, Filter::All);
    assert_eq!(q.count_kind, CountKind::Estimated);
}

#[test]
fn rename_with_many_collections_is_a_startup_error() {
    let r = plan_fleet(2, true, None, false);
    assert_eq!(r, Err(ConfigError::RenameWithManyCollections));
    let ok = plan_fleet(1, true, None, false);
    assert!(ok.is_ok());
}

#[test]
fn rename_forces_one_collection_at_a_time() {
    let p = plan_fleet(1, true, None, false).unwrap();
    assert_eq!(p.collection_concurrency, 1);
}

#[test]
fn explicit_thread_count_wins() {
    let p = plan_fleet(10, false, Some(8), true).unwrap();
    assert_eq!(p.collection_concurrency, 8);
    assert!(p.validate);
}

#[test]
fn four_collections_at_once_by_default() {
    let p = plan_fleet(10, false, None, false).unwrap();
    assert_eq!(p.collection_concurrency, 4);
}
