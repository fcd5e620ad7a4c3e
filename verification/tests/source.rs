use mongodb_stream_rs::plan::Filter;
use mongodb_stream_rs::source::stream_ids;

#[test]
fn selection_yields_the_ascending_tail_past_the_marker() {
    let ids: Vec<u128> = vec![1, 2, 3, 10, 20, 30];
    let all = stream_ids(&ids, &Filter::All);
    assert_eq!(all, ids);
    let tail = stream_ids(&ids, &Filter::IdGreaterThan(3));
    assert_eq!(tail, vec![10, 20, 30]);
    let none = stream_ids(&ids, &Filter::IdGreaterThan(30));
    assert_eq!(none, Vec::<u128>::new());
}
