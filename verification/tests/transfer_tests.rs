use switch_bridge::transfer::Transfer;

// A transport stub in the shape the retry loop sees: each underlying call
// either times out or moves some bytes into the remaining region.
enum StubCall {
    TimedOut,
    Moved(usize),
}

fn drive(total: usize, calls: &[StubCall]) -> (Transfer, usize) {
    let mut t = Transfer::new(total);
    let mut used = 0;
    for c in calls {
        if t.is_complete() {
            break;
        }
        used += 1;
        match c {
            StubCall::TimedOut => t.on_timeout(),
            StubCall::Moved(n) => {
                let n = (*n).min(t.remaining());
                t.on_bytes(n);
            }
        }
    }
    (t, used)
}

#[test]
fn timeouts_on_odd_calls_partials_on_even() {
    // timeout on every odd-numbered call, a partial count on every even one
    let calls = [
        StubCall::TimedOut,
        StubCall::Moved(3),
        StubCall::TimedOut,
        StubCall::Moved(2),
        StubCall::TimedOut,
        StubCall::Moved(4),
        StubCall::TimedOut,
        StubCall::Moved(1),
    ];
    let (t, used) = drive(10, &calls);
    assert!(t.is_complete());
    assert_eq!(t.done, 10);
    assert_eq!(t.total, 10);
    // success came only once all ten bytes were accounted for: every stub
    // call was needed
    assert_eq!(used, 8);
}

#[test]
fn complete_only_after_exactly_n_bytes() {
    let calls = [
        StubCall::TimedOut,
        StubCall::Moved(4),
        StubCall::TimedOut,
        StubCall::Moved(4),
    ];
    let (t, _) = drive(10, &calls);
    // eight of ten bytes moved: not complete, two still owed
    assert!(!t.is_complete());
    assert_eq!(t.done, 8);
    assert_eq!(t.remaining(), 2);
}

#[test]
fn timeout_moves_nothing() {
    let mut t = Transfer::new(5);
    for _ in 0..100 {
        t.on_timeout();
    }
    assert_eq!(t.done, 0);
    assert!(!t.is_complete());
}

#[test]
fn hard_error_reports_cumulative_count() {
    // the loop aborts on a hard error between events; the count it reports
    // is whatever had been accounted up to that call
    let mut t = Transfer::new(100);
    t.on_timeout();
    t.on_bytes(30);
    t.on_timeout();
    t.on_bytes(25);
    // hard error here: the loop stops and hands the count upward
    assert_eq!(t.done, 55);
    assert!(!t.is_complete());
}

#[test]
fn zero_length_transfer_is_complete_at_once() {
    let t = Transfer::new(0);
    assert!(t.is_complete());
    assert_eq!(t.remaining(), 0);
}

#[test]
fn single_full_transfer() {
    let mut t = Transfer::new(7);
    t.on_bytes(7);
    assert!(t.is_complete());
    assert_eq!(t.done, 7);
}
