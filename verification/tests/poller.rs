use test_helpers_end_to_end::{elapsed_since, poll_decision, PollDecision, TICK_MS, TIMEOUT_MS};

#[test]
fn tick_and_timeout_are_one_and_twenty_seconds() {
    assert_eq!(TICK_MS, 1000);
    assert_eq!(TIMEOUT_MS, 20000);
}

#[test]
fn elapsed_is_the_difference_of_two_readings() {
    assert_eq!(elapsed_since(3, 5), 2);
    assert_eq!(elapsed_since(7, 7), 0);
    assert_eq!(elapsed_since(0, u64::MAX), u64::MAX);
}

#[test]
fn elapsed_is_nothing_when_the_clock_went_back() {
    assert_eq!(elapsed_since(5, 3), 0);
}

#[test]
fn first_success_ends_the_wait() {
    assert_eq!(poll_decision(0, true), PollDecision::Succeeded);
    assert_eq!(poll_decision(12345, true), PollDecision::Succeeded);
}

#[test]
fn success_at_the_deadline_counts() {
    assert_eq!(poll_decision(20000, true), PollDecision::Succeeded);
}

#[test]
fn success_after_the_deadline_is_too_late() {
    assert_eq!(poll_decision(20001, true), PollDecision::TimedOut);
    assert_eq!(poll_decision(u64::MAX, true), PollDecision::TimedOut);
}

#[test]
fn failed_attempt_rests_one_tick() {
    assert_eq!(poll_decision(0, false), PollDecision::Retry { after_ms: 1000, within_ms: 20000 });
    assert_eq!(poll_decision(500, false), PollDecision::Retry { after_ms: 1000, within_ms: 19500 });
    assert_eq!(poll_decision(19000, false), PollDecision::Retry { after_ms: 1000, within_ms: 1000 });
}

#[test]
fn last_rest_ends_at_the_deadline() {
    assert_eq!(poll_decision(19600, false), PollDecision::Retry { after_ms: 400, within_ms: 400 });
    assert_eq!(poll_decision(19999, false), PollDecision::Retry { after_ms: 1, within_ms: 1 });
}

#[test]
fn failed_attempt_at_the_deadline_times_out() {
    assert_eq!(poll_decision(20000, false), PollDecision::TimedOut);
    assert_eq!(poll_decision(20001, false), PollDecision::TimedOut);
}

#[test]
fn wait_on_what_never_holds_ends_with_the_twenty_first_attempt() {
    let mut elapsed: u64 = 0;
    let mut attempts = 0;
    loop {
        attempts += 1;
        match poll_decision(elapsed, false) {
            PollDecision::Retry { after_ms, within_ms } => {
                assert!(after_ms <= within_ms);
                assert_eq!(elapsed + within_ms, TIMEOUT_MS);
                elapsed += after_ms;
            }
            PollDecision::TimedOut => break,
            PollDecision::Succeeded => panic!("the condition never held"),
        }
    }
    assert_eq!(attempts, 21);
    assert_eq!(elapsed, TIMEOUT_MS);
}

#[test]
fn slow_replies_shorten_the_wait() {
    // each reply takes 700 ms on top of the rest
    let mut elapsed: u64 = 700;
    let mut attempts = 0;
    while let PollDecision::Retry { after_ms, .. } = poll_decision(elapsed, false) {
        attempts += 1;
        elapsed += after_ms + 700;
    }
    assert_eq!(attempts, 12);
    assert_eq!(poll_decision(elapsed, false), PollDecision::TimedOut);
}
