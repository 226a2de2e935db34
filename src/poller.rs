use vstd::prelude::*;
use crate::readiness::ReadinessOutcome;

verus! {

/// How long a poll may go on: a number of probes, or a time since it began.
#[derive(Clone, Copy, Debug, PartialEq, Eq, Structural)]
pub enum PollBound {
    Attempts(u64),
    DeadlineMs(u64),
}

/// A retry policy: the pause between probes and the bound.
#[derive(Clone, Copy, Debug, PartialEq, Eq, Structural)]
pub struct PollPolicy {
    pub interval_ms: u64,
    pub bound: PollBound,
}

/// Where a poll stands just after a probe: the probes made so far, this one included, and
/// the milliseconds since the poll began.
#[derive(Clone, Copy, Debug, PartialEq, Eq, Structural)]
pub struct PollState {
    pub attempts: u64,
    pub elapsed_ms: u64,
}

/// What the poller does after a probe.
#[derive(Clone, Debug, PartialEq, Eq)]
pub enum PollStep {
    Ready,
    TimedOut,
    Fatal(String),
    Retry { wait_ms: u64 },
}

/// No further probe is allowed: the attempts are used up, or the deadline has passed.
pub open spec fn exhausted(policy: PollPolicy, attempts: nat, elapsed: nat) -> bool {
    match policy.bound {
        PollBound::Attempts(n) => attempts >= n,
        PollBound::DeadlineMs(d) => elapsed > d,
    }
}

/// The pause before the next probe: the policy's interval, cut short so that it never ends
/// after the deadline.
pub open spec fn wait_of(policy: PollPolicy, elapsed: nat) -> u64 {
    match policy.bound {
        PollBound::Attempts(_) => policy.interval_ms,
        PollBound::DeadlineMs(d) => if d - elapsed < policy.interval_ms {
            (d - elapsed) as u64
        } else {
            policy.interval_ms
        },
    }
}

/// The decision after a probe with the given outcome.
pub open spec fn decide(policy: PollPolicy, attempts: nat, elapsed: nat, outcome: ReadinessOutcome) -> PollStep {
    match outcome {
        ReadinessOutcome::Ready => PollStep::Ready,
        ReadinessOutcome::Fatal(reason) => PollStep::Fatal(reason),
        ReadinessOutcome::NotReadyRetryable => {
            if exhausted(policy, attempts, elapsed) {
                PollStep::TimedOut
            } else {
                PollStep::Retry { wait_ms: wait_of(policy, elapsed) }
            }
        },
    }
}

/// A whole poll, from `attempts` probes made and `elapsed` milliseconds: the probes give
/// `outcomes` in turn, the k-th taking `costs[k]` milliseconds, with the policy's pause
/// between them. The result is the final step, the probes made and the time at the end;
/// `None` when the given probes run out first.
pub open spec fn run(
    policy: PollPolicy,
    outcomes: Seq<ReadinessOutcome>,
    costs: Seq<nat>,
    attempts: nat,
    elapsed: nat,
) -> Option<(PollStep, nat, nat)>
    decreases outcomes.len(),
{
    if outcomes.len() == 0 || costs.len() == 0 {
        None
    } else {
        let a = attempts + 1;
        let t = (elapsed + costs[0]) as nat;
        match decide(policy, a, t, outcomes[0]) {
            PollStep::Retry { wait_ms } => run(
                policy,
                outcomes.drop_first(),
                costs.drop_first(),
                a,
                (t + wait_ms) as nat,
            ),
            step => Some((step, a, t)),
        }
    }
}

/// The decision after a probe, with the poll's state taken just after it.
pub fn poll_step(policy: &PollPolicy, state: &PollState, outcome: &ReadinessOutcome) -> (r: PollStep)
    ensures
        r == decide(*policy, state.attempts as nat, state.elapsed_ms as nat, *outcome),
{
    match outcome {
        ReadinessOutcome::Ready => PollStep::Ready,
        ReadinessOutcome::Fatal(reason) => PollStep::Fatal(reason.clone()),
        ReadinessOutcome::NotReadyRetryable => match policy.bound {
            PollBound::Attempts(n) => if state.attempts >= n {
                PollStep::TimedOut
            } else {
                PollStep::Retry { wait_ms: policy.interval_ms }
            },
            PollBound::DeadlineMs(d) => if state.elapsed_ms > d {
                PollStep::TimedOut
            } else if d - state.elapsed_ms < policy.interval_ms {
                PollStep::Retry { wait_ms: d - state.elapsed_ms }
            } else {
                PollStep::Retry { wait_ms: policy.interval_ms }
            },
        },
    }
}

/// A poll ends with `Ready` on the first probe that reports ready, at that probe, unless it
/// timed out earlier; on the very first probe it never waits.
pub proof fn lemma_ready_ends_poll(
    policy: PollPolicy,
    outcomes: Seq<ReadinessOutcome>,
    costs: Seq<nat>,
    attempts: nat,
    elapsed: nat,
    k: int,
)
    requires
        0 <= k < outcomes.len(),
        k < costs.len(),
        outcomes[k] is Ready,
        forall|j: int| 0 <= j < k ==> outcomes[j] is NotReadyRetryable,
    ensures
        run(policy, outcomes, costs, attempts, elapsed) matches Some((step, a, _)) && (
        (step is Ready && a == attempts + k + 1) || (step is TimedOut && a <= attempts + k)),
        k == 0 ==> run(policy, outcomes, costs, attempts, elapsed) == Some(
            (PollStep::Ready, attempts + 1, elapsed + costs[0]),
        ),
    decreases k,
{
    if k > 0 {
        let a = attempts + 1;
        let t = (elapsed + costs[0]) as nat;
        assert(outcomes[0] is NotReadyRetryable);
        if !exhausted(policy, a, t) {
            let rest = outcomes.drop_first();
            assert forall|j: int| 0 <= j < k - 1 implies rest[j] is NotReadyRetryable by {
                assert(rest[j] == outcomes[j + 1]);
            }
            assert(rest[k - 1] == outcomes[k]);
            lemma_ready_ends_poll(
                policy,
                rest,
                costs.drop_first(),
                a,
                (t + wait_of(policy, t)) as nat,
                k - 1,
            );
        }
    }
}

/// With a bound of `n` attempts, a probe that never gets ready is given up as timed out after
/// exactly `n` probes.
pub proof fn lemma_attempts_time_out(
    policy: PollPolicy,
    outcomes: Seq<ReadinessOutcome>,
    costs: Seq<nat>,
    attempts: nat,
    elapsed: nat,
    n: nat,
)
    requires
        n <= u64::MAX,
        policy.bound == PollBound::Attempts(n as u64),
        attempts < n,
        outcomes.len() >= n - attempts,
        costs.len() >= n - attempts,
        forall|j: int| 0 <= j < outcomes.len() ==> #[trigger] outcomes[j] is NotReadyRetryable,
    ensures
        run(policy, outcomes, costs, attempts, elapsed) matches Some((step, a, _)) && step
            is TimedOut && a == n,
    decreases n - attempts,
{
    assert(outcomes[0] is NotReadyRetryable);
    if attempts + 1 < n {
        let rest = outcomes.drop_first();
        assert forall|j: int| 0 <= j < rest.len() implies #[trigger] rest[j] is NotReadyRetryable by {
            assert(rest[j] == outcomes[j + 1]);
        }
        lemma_attempts_time_out(
            policy,
            rest,
            costs.drop_first(),
            attempts + 1,
            (elapsed + costs[0] + policy.interval_ms) as nat,
            n,
        );
    }
}

/// With a deadline `d`, a probe that never gets ready is given up as timed out once the
/// deadline has passed: no probe starts after the deadline, so the poll ends no later than the
/// deadline plus the longest probe `limit`, after at most `d - elapsed + 1` probes. Each probe
/// takes at least a millisecond.
pub proof fn lemma_deadline_time_out(
    policy: PollPolicy,
    outcomes: Seq<ReadinessOutcome>,
    costs: Seq<nat>,
    attempts: nat,
    elapsed: nat,
    d: nat,
    limit: nat,
)
    requires
        d <= u64::MAX,
        policy.bound == PollBound::DeadlineMs(d as u64),
        elapsed <= d,
        outcomes.len() > d - elapsed,
        costs.len() > d - elapsed,
        forall|j: int| 0 <= j < outcomes.len() ==> #[trigger] outcomes[j] is NotReadyRetryable,
        forall|j: int| 0 <= j < costs.len() ==> 1 <= #[trigger] costs[j] <= limit,
    ensures
        run(policy, outcomes, costs, attempts, elapsed) matches Some((step, a, t)) && step
            is TimedOut && d < t <= d + limit && a <= attempts + d - elapsed + 1,
    decreases d - elapsed,
{
    assert(outcomes[0] is NotReadyRetryable);
    assert(1 <= costs[0] <= limit);
    let a = attempts + 1;
    let t = (elapsed + costs[0]) as nat;
    if !exhausted(policy, a, t) {
        let rest = outcomes.drop_first();
        let rest_costs = costs.drop_first();
        assert forall|j: int| 0 <= j < rest.len() implies #[trigger] rest[j] is NotReadyRetryable by {
            assert(rest[j] == outcomes[j + 1]);
        }
        assert forall|j: int| 0 <= j < rest_costs.len() implies 1 <= #[trigger] rest_costs[j] <= limit by {
            assert(rest_costs[j] == costs[j + 1]);
        }
        lemma_deadline_time_out(
            policy,
            rest,
            rest_costs,
            a,
            (t + wait_of(policy, t)) as nat,
            d,
            limit,
        );
    }
}

} // verus!
