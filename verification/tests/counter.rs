use mongodb_stream_rs::counter::{Counter, LogEvent};

#[test]
fn fresh_counter_is_zeroed() {
    let c = Counter::new();
    assert_eq!(c.count(), 0);
    assert_eq!(c.total(), 0);
}

#[test]
fn set_total_is_reported_back() {
    let mut c = Counter::new();
    c.set_total(4500);
    assert_eq!(c.total(), 4500);
    assert_eq!(c.count(), 0);
}

#[test]
fn first_whole_percent_crossing_reports_progress() {
    let mut c = Counter::new();
    c.set_total(100);
    // 1/100 = 1% > marker 0: progress; 1 doc over 10 s rounds down to 0/s.
    let e = c.incr_at(1, 10, 0);
    assert_eq!(
        e,
        LogEvent::Progress { percent: 1, rate: 0, count: 1, total: 100, catching_up: false }
    );
}

#[test]
fn rate_is_count_per_elapsed_second() {
    let mut c = Counter::new();
    c.set_total(100);
    let e = c.incr_at(50, 10, 0);
    assert_eq!(
        e,
        LogEvent::Progress { percent: 50, rate: 5, count: 50, total: 100, catching_up: false }
    );
}

#[test]
fn degenerate_clock_reads_as_one_second() {
    let mut c = Counter::new();
    c.set_total(100);
    let e = c.incr_at(50, 0, 10);
    assert_eq!(
        e,
        LogEvent::Progress { percent: 50, rate: 50, count: 50, total: 100, catching_up: false }
    );
}

#[test]
fn quiet_until_a_whole_percent_is_crossed() {
    let mut c = Counter::new();
    c.set_total(200);
    // 1/200 = 0%: quiet.
    assert_eq!(c.incr_at(1, 1, 0), LogEvent::Quiet);
    // 2/200 = 1% > 0: progress, marker moves to 1.
    assert!(matches!(c.incr_at(1, 1, 0), LogEvent::Progress { percent: 1, .. }));
    // 3/200 = 1%: not past the marker, quiet again.
    assert_eq!(c.incr_at(1, 1, 0), LogEvent::Quiet);
}

#[test]
fn completion_reported_exactly_once() {
    let mut c = Counter::new();
    c.set_total(10);
    let e = c.incr_at(10, 1, 0);
    assert_eq!(e, LogEvent::Complete { rate: 10, count: 10, total: 10 });
    // Past the total afterwards: catching up, never a second completion.
    let e2 = c.incr_at(1, 1, 0);
    assert!(matches!(
        e2,
        LogEvent::Progress { count: 11, total: 10, catching_up: true, .. }
    ));
}

#[test]
fn completion_fires_even_when_count_jumps_past_total() {
    let mut c = Counter::new();
    c.set_total(10);
    let e = c.incr_at(25, 1, 0);
    assert_eq!(e, LogEvent::Complete { rate: 25, count: 25, total: 10 });
}

#[test]
fn zero_expected_documents_stays_quiet() {
    let mut c = Counter::new();
    c.set_total(0);
    assert_eq!(c.incr_at(5, 1, 0), LogEvent::Quiet);
    assert_eq!(c.incr_at(5, 2, 0), LogEvent::Quiet);
    assert_eq!(c.count(), 10);
}

#[test]
fn count_accumulates_the_sum_of_increments() {
    let mut c = Counter::new();
    c.set_total(1000);
    let increments = [3u64, 0, 250, 1, 746];
    for n in increments {
        c.incr_at(n, 1, 0);
    }
    assert_eq!(c.count(), 1000);
}
