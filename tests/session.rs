use space_dl::retry::{RetryDecision, RetryPolicy, RetryState};
use space_dl::session::{Action, Session, SessionError};

fn names(list: &[&str]) -> Vec<String> {
    list.iter().map(|s| s.to_string()).collect()
}

fn expect_fetch(s: &mut Session, want: usize) -> String {
    match s.next_action() {
        Action::Fetch { index, url } => {
            assert_eq!(index, want);
            url
        }
        other => panic!("expected fetch of {want}, got {other:?}"),
    }
}

fn expect_write(s: &mut Session, want: usize) -> Vec<u8> {
    match s.next_action() {
        Action::Write { index, payload } => {
            assert_eq!(index, want);
            payload
        }
        other => panic!("expected write of {want}, got {other:?}"),
    }
}

/// Drives a session to its end. Whenever it waits, the first fragment of
/// `arrivals` whose fetch is in flight completes; every write is performed
/// at once. Returns the bytes written.
fn run_in_order(payloads: &[Vec<u8>], limit: usize, arrivals: &[usize]) -> Vec<u8> {
    let frags: Vec<String> = (0..payloads.len()).map(|i| format!("f{i}")).collect();
    let mut s = Session::new("http://h/", &frags, limit);
    let mut out = Vec::new();
    let mut pending: Vec<usize> = arrivals.to_vec();
    loop {
        match s.next_action() {
            Action::Fetch { .. } => {}
            Action::Write { index, payload } => {
                out.extend_from_slice(&payload);
                assert!(s.written(index));
            }
            Action::Wait => {
                let k = pending
                    .iter()
                    .position(|&i| s.fetched(i, payloads[i].clone()))
                    .expect("a fragment in flight");
                pending.remove(k);
            }
            Action::Complete => return out,
            Action::Abort(e) => panic!("unexpected abort {e:?}"),
        }
    }
}

#[test]
fn scenario_a_a_first() {
    let mut s = Session::new("http://h/", &names(&["a", "b", "c"]), 2);
    assert_eq!(expect_fetch(&mut s, 0), "http://h/a");
    assert_eq!(expect_fetch(&mut s, 1), "http://h/b");
    assert!(matches!(s.next_action(), Action::Wait));
    assert!(s.fetched(0, vec![0x01]));
    assert_eq!(expect_write(&mut s, 0), vec![0x01]);
    assert!(s.written(0));
    assert_eq!(expect_fetch(&mut s, 2), "http://h/c");
    assert!(s.fetched(1, vec![0x02]));
    let mut out = vec![0x01];
    out.extend(expect_write(&mut s, 1));
    assert!(s.written(1));
    assert!(s.fetched(2, vec![0x03]));
    out.extend(expect_write(&mut s, 2));
    assert!(s.written(2));
    assert!(matches!(s.next_action(), Action::Complete));
    assert_eq!(out, vec![0x01, 0x02, 0x03]);
}

#[test]
fn scenario_a_b_first() {
    let mut s = Session::new("http://h/", &names(&["a", "b", "c"]), 2);
    expect_fetch(&mut s, 0);
    expect_fetch(&mut s, 1);
    assert!(matches!(s.next_action(), Action::Wait));
    // b arrives before a: it is held, and its slot goes to c.
    assert!(s.fetched(1, vec![0x02]));
    assert_eq!(expect_fetch(&mut s, 2), "http://h/c");
    assert!(matches!(s.next_action(), Action::Wait));
    assert!(s.fetched(2, vec![0x03]));
    assert!(matches!(s.next_action(), Action::Wait));
    assert!(s.fetched(0, vec![0x01]));
    let mut out = Vec::new();
    for i in 0..3 {
        out.extend(expect_write(&mut s, i));
        assert!(s.written(i));
    }
    assert!(matches!(s.next_action(), Action::Complete));
    assert_eq!(out, vec![0x01, 0x02, 0x03]);
}

#[test]
fn order_invariance_over_arrival_orders() {
    let payloads: Vec<Vec<u8>> = vec![vec![1, 1], vec![2], vec![], vec![4, 4, 4], vec![5]];
    let want: Vec<u8> = payloads.concat();
    let orders: [[usize; 5]; 4] = [[0, 1, 2, 3, 4], [4, 3, 2, 1, 0], [2, 0, 4, 1, 3], [1, 3, 0, 4, 2]];
    for limit in 1..=5 {
        for order in orders.iter() {
            assert_eq!(run_in_order(&payloads, limit, order), want, "limit {limit} order {order:?}");
        }
    }
}

#[test]
fn empty_fragment_list_completes_at_once() {
    let mut s = Session::new("http://h/", &Vec::new(), 3);
    assert_eq!(s.remaining(), 0);
    assert!(matches!(s.next_action(), Action::Complete));
    assert!(matches!(s.next_action(), Action::Complete));
}

#[test]
fn single_fragment_writes_immediately() {
    let mut s = Session::new("http://h/", &names(&["only"]), 4);
    assert_eq!(expect_fetch(&mut s, 0), "http://h/only");
    assert!(s.fetched(0, vec![9, 8]));
    assert_eq!(expect_write(&mut s, 0), vec![9, 8]);
    assert!(s.written(0));
    assert!(matches!(s.next_action(), Action::Complete));
}

#[test]
fn admission_respects_the_bound() {
    let mut s = Session::new("http://h/", &names(&["a", "b", "c", "d"]), 3);
    for i in 0..3 {
        expect_fetch(&mut s, i);
    }
    assert!(matches!(s.next_action(), Action::Wait));
    assert!(s.fetched(2, vec![3]));
    expect_fetch(&mut s, 3);
    assert!(matches!(s.next_action(), Action::Wait));
}

#[test]
fn fragment_retried_then_fetched_contributes_once() {
    let policy = RetryPolicy::exponential(10).with_max_retries(5);
    let mut s = Session::new("http://h/", &names(&["a", "b"]), 2);
    expect_fetch(&mut s, 0);
    expect_fetch(&mut s, 1);
    // Fragment 0 fails three times before its fetch succeeds.
    let mut retry = RetryState::new(policy);
    for k in 1..=3usize {
        assert_eq!(
            retry.on_failure_with(0),
            RetryDecision::Retry { attempt: k, delay_ms: 10 << (k - 1) }
        );
    }
    assert!(s.fetched(0, vec![0xAA]));
    // A second delivery of the same fragment is discarded.
    assert!(!s.fetched(0, vec![0xAA]));
    assert!(s.fetched(1, vec![0xBB]));
    assert!(!s.fetched(1, vec![0xBB]));
    let mut out = Vec::new();
    for i in 0..2 {
        out.extend(expect_write(&mut s, i));
        assert!(s.written(i));
    }
    assert!(matches!(s.next_action(), Action::Complete));
    assert_eq!(out, vec![0xAA, 0xBB]);
}

#[test]
fn scenario_b_exhausted_retries_aborts() {
    let policy = RetryPolicy::exponential(1).with_max_retries(3);
    let frags = names(&["f0", "f1", "f2", "f3", "f4"]);
    let mut s = Session::new("http://h/", &frags, 5);
    for i in 0..5 {
        expect_fetch(&mut s, i);
    }
    assert!(s.fetched(0, vec![0]));
    assert!(s.fetched(1, vec![1]));
    let mut written = Vec::new();
    for i in 0..2 {
        written.extend(expect_write(&mut s, i));
        assert!(s.written(i));
    }
    // Every attempt at fragment 2 fails: max_retries + 1 attempts in all.
    let mut retry = RetryState::new(policy);
    let mut attempts = 1;
    while let RetryDecision::Retry { .. } = retry.on_failure_with(12345) {
        attempts += 1;
    }
    assert_eq!(attempts, policy.max_retries + 1);
    assert!(s.fetch_failed(2, "connection reset".to_string()));
    // Later fragments still arriving are discarded and never written.
    assert!(!s.fetched(3, vec![3]));
    assert!(!s.fetched(4, vec![4]));
    match s.next_action() {
        Action::Abort(SessionError::ExhaustedRetries { index, cause }) => {
            assert_eq!(index, 2);
            assert_eq!(cause, "connection reset");
        }
        other => panic!("expected abort, got {other:?}"),
    }
    assert!(matches!(s.next_action(), Action::Abort(_)));
    assert_eq!(s.remaining(), 3);
    assert_eq!(written, vec![0, 1]);
}

#[test]
fn write_failure_aborts_without_raising_the_signal() {
    let mut s = Session::new("http://h/", &names(&["a", "b"]), 2);
    expect_fetch(&mut s, 0);
    expect_fetch(&mut s, 1);
    assert!(s.fetched(1, vec![2]));
    assert!(s.fetched(0, vec![1]));
    expect_write(&mut s, 0);
    assert!(s.write_failed(0, "disk full".to_string()));
    assert!(!s.written(0));
    match s.next_action() {
        Action::Abort(SessionError::Write { index, cause }) => {
            assert_eq!(index, 0);
            assert_eq!(cause, "disk full");
        }
        other => panic!("expected abort, got {other:?}"),
    }
    assert_eq!(s.remaining(), 2);
}

#[test]
fn reports_that_do_not_fit_are_discarded() {
    let mut s = Session::new("http://h/", &names(&["a", "b"]), 1);
    assert!(!s.fetched(0, vec![1]));
    assert!(!s.fetched(7, vec![1]));
    expect_fetch(&mut s, 0);
    assert!(!s.fetched(1, vec![2]));
    assert!(!s.written(0));
    assert!(!s.write_failed(0, "x".to_string()));
    assert!(!s.fetch_failed(1, "x".to_string()));
    assert!(s.fetched(0, vec![1]));
    assert!(!s.fetch_failed(0, "x".to_string()));
    assert_eq!(s.remaining(), 2);
}

#[test]
fn abort_error_is_duplicated_faithfully() {
    let e = SessionError::Write { index: 4, cause: "boom".to_string() };
    match e.duplicate() {
        SessionError::Write { index, cause } => {
            assert_eq!(index, 4);
            assert_eq!(cause, "boom");
        }
        other => panic!("{other:?}"),
    }
}
