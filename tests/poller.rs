use zeckit::poller::{poll_step, PollBound, PollPolicy, PollState, PollStep};
use zeckit::readiness::ReadinessOutcome;

fn attempts(n: u64) -> PollPolicy {
    PollPolicy { interval_ms: 2000, bound: PollBound::Attempts(n) }
}

#[test]
fn ready_on_first_attempt_stops_at_once() {
    let st = PollState { attempts: 1, elapsed_ms: 0 };
    assert_eq!(poll_step(&attempts(5), &st, &ReadinessOutcome::Ready), PollStep::Ready);
    let deadline = PollPolicy { interval_ms: 1000, bound: PollBound::DeadlineMs(0) };
    assert_eq!(poll_step(&deadline, &st, &ReadinessOutcome::Ready), PollStep::Ready);
}

#[test]
fn fatal_short_circuits() {
    let st = PollState { attempts: 1, elapsed_ms: 0 };
    assert_eq!(
        poll_step(&attempts(5), &st, &ReadinessOutcome::Fatal("gone".to_string())),
        PollStep::Fatal("gone".to_string())
    );
}

#[test]
fn attempt_bound_times_out_after_exactly_n_probes() {
    let policy = attempts(3);
    let mut probes = 0u64;
    let result = loop {
        probes += 1;
        let st = PollState { attempts: probes, elapsed_ms: probes * 2000 };
        match poll_step(&policy, &st, &ReadinessOutcome::NotReadyRetryable) {
            PollStep::Retry { wait_ms } => assert_eq!(wait_ms, 2000),
            other => break other,
        }
        assert!(probes < 100);
    };
    assert_eq!(result, PollStep::TimedOut);
    assert_eq!(probes, 3);
}

#[test]
fn deadline_bound_times_out_only_after_the_deadline() {
    let policy = PollPolicy { interval_ms: 1000, bound: PollBound::DeadlineMs(10_000) };
    let step = |elapsed_ms: u64| {
        poll_step(&policy, &PollState { attempts: 1, elapsed_ms }, &ReadinessOutcome::NotReadyRetryable)
    };
    assert_eq!(step(8_999), PollStep::Retry { wait_ms: 1000 });
    assert_eq!(step(9_000), PollStep::Retry { wait_ms: 1000 });
    assert_eq!(step(9_500), PollStep::Retry { wait_ms: 500 });
    assert_eq!(step(10_000), PollStep::Retry { wait_ms: 0 });
    assert_eq!(step(10_001), PollStep::TimedOut);
    assert_eq!(step(u64::MAX), PollStep::TimedOut);
}

#[test]
fn deadline_poll_ends_within_bound_plus_one_probe() {
    let probe_ms = 300u64;
    let policy = PollPolicy { interval_ms: 1000, bound: PollBound::DeadlineMs(10_000) };
    let mut elapsed = 0u64;
    let mut n = 0u64;
    loop {
        elapsed += probe_ms;
        n += 1;
        let st = PollState { attempts: n, elapsed_ms: elapsed };
        match poll_step(&policy, &st, &ReadinessOutcome::NotReadyRetryable) {
            PollStep::Retry { wait_ms } => elapsed += wait_ms,
            PollStep::TimedOut => break,
            other => panic!("unexpected {:?}", other),
        }
    }
    assert!(elapsed > 10_000);
    assert!(elapsed <= 10_000 + probe_ms);
    assert_eq!(n, 9);
}
