use mongodb_stream_rs::accumulator::Accumulator;

#[test]
fn detaches_every_time_the_bulk_size_is_reached() {
    // Seven pushes at bulk size 3: floor(7 / 3) = 2 detaches of exactly 3,
    // and the remainder of 1 stays in the buffer — together all 7 pushes.
    let mut acc: Accumulator<u32> = Accumulator::new(3, None);
    let mut detached: Vec<Vec<u32>> = Vec::new();
    for d in 0..7u32 {
        if let Some(batch) = acc.push(d) {
            detached.push(batch);
        }
    }
    assert_eq!(detached.len(), 2);
    assert_eq!(detached[0], vec![0, 1, 2]);
    assert_eq!(detached[1], vec![3, 4, 5]);
    let rest = acc.finish();
    assert_eq!(rest, vec![6]);
}

#[test]
fn no_detach_before_the_buffer_is_full() {
    let mut acc: Accumulator<u32> = Accumulator::new(4, None);
    assert!(acc.push(1).is_none());
    assert!(acc.push(2).is_none());
    assert!(acc.push(3).is_none());
    assert!(acc.push(4).is_some());
}

#[test]
fn bounded_run_flushes_its_final_partial_batch_early() {
    // Bulk size 100, but only 5 documents are expected: the fifth push
    // detaches the partial batch at once instead of leaving it stranded.
    let mut acc: Accumulator<u32> = Accumulator::new(100, Some(5));
    for d in 1..5u32 {
        assert!(acc.push(d).is_none());
    }
    let batch = acc.push(5).expect("the known total was reached");
    assert_eq!(batch, vec![1, 2, 3, 4, 5]);
    // A source that grew past the known total keeps draining promptly.
    let extra = acc.push(6).expect("past the known total every push detaches");
    assert_eq!(extra, vec![6]);
    assert_eq!(acc.finish(), Vec::<u32>::new());
}

#[test]
fn empty_stream_leaves_an_empty_remainder() {
    let acc: Accumulator<u64> = Accumulator::new(2000, None);
    assert_eq!(acc.finish(), Vec::<u64>::new());
}
