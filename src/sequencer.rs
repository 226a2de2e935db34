use vstd::prelude::*;
use crate::poller::{PollBound, PollPolicy};
use crate::readiness::ReadinessOutcome;

verus! {

/// Height the chain must reach before mined funds can mature.
pub const MATURITY_HEIGHT: u64 = 101;

/// Pause after the chain reaches that height, for the coinbase maturity window.
pub const COINBASE_WAIT_MS: u64 = 120_000;

/// Pause after restarting the node with a new miner address.
pub const RESTART_SETTLE_MS: u64 = 15_000;

/// Pause between readiness probes.
pub const PROBE_INTERVAL_MS: u64 = 2_000;

/// The bootstrap stages, in the order they run.
#[derive(Clone, Copy, Debug, PartialEq, Eq, Structural)]
pub enum Stage {
    ContainersStarting,
    NodeReady,
    BackendReady,
    WalletReady,
    FaucetReady,
    AddressDiscovered,
    ConfigPatched,
    NodeRestarted,
    MiningMaturity,
    CoinbaseMaturityWindow,
    FixturesGenerated,
    WalletSynced,
    BalanceChecked,
    Done,
}

/// What a failure of a stage does to the bootstrap.
#[derive(Clone, Copy, Debug, PartialEq, Eq, Structural)]
pub enum OnFailure {
    Abort,
    Warn,
}

/// How a stage went.
#[derive(Clone, Debug, PartialEq, Eq)]
pub enum StageReport {
    Succeeded,
    Failed(String),
}

/// What the bootstrap does next.
#[derive(Clone, Debug, PartialEq, Eq)]
pub enum SequencerAction {
    Run(Stage),
    Warn { stage: Stage, reason: String, next: Stage },
    Abort { stage: Stage, reason: String },
    Finished,
}

pub open spec fn rank(s: Stage) -> nat {
    match s {
        Stage::ContainersStarting => 0,
        Stage::NodeReady => 1,
        Stage::BackendReady => 2,
        Stage::WalletReady => 3,
        Stage::FaucetReady => 4,
        Stage::AddressDiscovered => 5,
        Stage::ConfigPatched => 6,
        Stage::NodeRestarted => 7,
        Stage::MiningMaturity => 8,
        Stage::CoinbaseMaturityWindow => 9,
        Stage::FixturesGenerated => 10,
        Stage::WalletSynced => 11,
        Stage::BalanceChecked => 12,
        Stage::Done => 13,
    }
}

/// The failure policy of each stage: the network itself must come up (containers, every
/// readiness gate, mining maturity); the wallet conveniences around it only warn.
pub open spec fn policy_of(s: Stage) -> OnFailure {
    match s {
        Stage::ContainersStarting | Stage::NodeReady | Stage::BackendReady | Stage::WalletReady
        | Stage::FaucetReady | Stage::MiningMaturity => OnFailure::Abort,
        _ => OnFailure::Warn,
    }
}

pub open spec fn next_spec(s: Stage, backend_requested: bool) -> Stage {
    match s {
        Stage::ContainersStarting => Stage::NodeReady,
        Stage::NodeReady => if backend_requested {
            Stage::BackendReady
        } else {
            Stage::WalletReady
        },
        Stage::BackendReady => Stage::WalletReady,
        Stage::WalletReady => Stage::FaucetReady,
        Stage::FaucetReady => Stage::AddressDiscovered,
        Stage::AddressDiscovered => Stage::ConfigPatched,
        Stage::ConfigPatched => Stage::NodeRestarted,
        Stage::NodeRestarted => Stage::MiningMaturity,
        Stage::MiningMaturity => Stage::CoinbaseMaturityWindow,
        Stage::CoinbaseMaturityWindow => Stage::FixturesGenerated,
        Stage::FixturesGenerated => Stage::WalletSynced,
        Stage::WalletSynced => Stage::BalanceChecked,
        Stage::BalanceChecked => Stage::Done,
        Stage::Done => Stage::Done,
    }
}

/// Where the bootstrap goes after a stage that only warns has failed: without an address, or
/// without a patched configuration, the node keeps mining to its configured default, so the
/// patch and restart are skipped.
pub open spec fn after_warning(s: Stage, backend_requested: bool) -> Stage {
    match s {
        Stage::AddressDiscovered | Stage::ConfigPatched => Stage::MiningMaturity,
        _ => next_spec(s, backend_requested),
    }
}

pub open spec fn advance_spec(s: Stage, report: StageReport, backend_requested: bool) -> SequencerAction {
    match report {
        StageReport::Succeeded => {
            let n = next_spec(s, backend_requested);
            if n is Done {
                SequencerAction::Finished
            } else {
                SequencerAction::Run(n)
            }
        },
        StageReport::Failed(reason) => {
            if s is Done {
                SequencerAction::Finished
            } else if policy_of(s) is Abort {
                SequencerAction::Abort { stage: s, reason }
            } else {
                let n = after_warning(s, backend_requested);
                if n is Done {
                    SequencerAction::Finished
                } else {
                    SequencerAction::Warn { stage: s, reason, next: n }
                }
            }
        },
    }
}

/// The failure policy of a stage.
pub fn on_failure(s: Stage) -> (r: OnFailure)
    ensures
        r == policy_of(s),
{
    match s {
        Stage::ContainersStarting | Stage::NodeReady | Stage::BackendReady | Stage::WalletReady
        | Stage::FaucetReady | Stage::MiningMaturity => OnFailure::Abort,
        _ => OnFailure::Warn,
    }
}

/// The stage after `s`; the backend gate is passed over when no backend was asked for.
pub fn next_stage(s: Stage, backend_requested: bool) -> (r: Stage)
    ensures
        r == next_spec(s, backend_requested),
        !(s is Done) ==> rank(r) > rank(s),
{
    match s {
        Stage::ContainersStarting => Stage::NodeReady,
        Stage::NodeReady => if backend_requested {
            Stage::BackendReady
        } else {
            Stage::WalletReady
        },
        Stage::BackendReady => Stage::WalletReady,
        Stage::WalletReady => Stage::FaucetReady,
        Stage::FaucetReady => Stage::AddressDiscovered,
        Stage::AddressDiscovered => Stage::ConfigPatched,
        Stage::ConfigPatched => Stage::NodeRestarted,
        Stage::NodeRestarted => Stage::MiningMaturity,
        Stage::MiningMaturity => Stage::CoinbaseMaturityWindow,
        Stage::CoinbaseMaturityWindow => Stage::FixturesGenerated,
        Stage::FixturesGenerated => Stage::WalletSynced,
        Stage::WalletSynced => Stage::BalanceChecked,
        Stage::BalanceChecked => Stage::Done,
        Stage::Done => Stage::Done,
    }
}

/// What the bootstrap does after stage `s` reported `report`. A failed stage that must not
/// fail aborts the whole bootstrap; any other failure is a warning and the bootstrap goes on,
/// always forward, so it reaches its end unless it aborts.
pub fn advance(s: Stage, report: &StageReport, backend_requested: bool) -> (r: SequencerAction)
    ensures
        r == advance_spec(s, *report, backend_requested),
        r matches SequencerAction::Run(n) ==> rank(n) > rank(s),
        r matches SequencerAction::Warn { next, .. } ==> rank(next) > rank(s),
        r is Abort ==> report is Failed && policy_of(s) is Abort,
{
    match report {
        StageReport::Succeeded => {
            let n = next_stage(s, backend_requested);
            if matches!(n, Stage::Done) {
                SequencerAction::Finished
            } else {
                SequencerAction::Run(n)
            }
        },
        StageReport::Failed(reason) => {
            if matches!(s, Stage::Done) {
                SequencerAction::Finished
            } else if matches!(on_failure(s), OnFailure::Abort) {
                SequencerAction::Abort { stage: s, reason: reason.clone() }
            } else {
                let n = match s {
                    Stage::AddressDiscovered | Stage::ConfigPatched => Stage::MiningMaturity,
                    _ => next_stage(s, backend_requested),
                };
                if matches!(n, Stage::Done) {
                    SequencerAction::Finished
                } else {
                    SequencerAction::Warn { stage: s, reason: reason.clone(), next: n }
                }
            }
        },
    }
}

pub open spec fn stage_policy_spec(s: Stage) -> Option<PollPolicy> {
    match s {
        Stage::NodeReady | Stage::FaucetReady => Some(
            PollPolicy { interval_ms: PROBE_INTERVAL_MS, bound: PollBound::Attempts(560) },
        ),
        Stage::BackendReady => Some(
            PollPolicy { interval_ms: PROBE_INTERVAL_MS, bound: PollBound::Attempts(600) },
        ),
        Stage::WalletReady => Some(
            PollPolicy { interval_ms: PROBE_INTERVAL_MS, bound: PollBound::DeadlineMs(6_000_000) },
        ),
        Stage::MiningMaturity => Some(
            PollPolicy { interval_ms: PROBE_INTERVAL_MS, bound: PollBound::DeadlineMs(60_000_000) },
        ),
        _ => None,
    }
}

/// The polling policy of each gated stage: liveness gates are bounded by attempts, the wallet
/// and mining gates, which need far more patience, by time.
pub fn stage_policy(s: Stage) -> (r: Option<PollPolicy>)
    ensures
        r == stage_policy_spec(s),
        r is Some <==> policy_of(s) is Abort && !(s is ContainersStarting),
{
    match s {
        Stage::NodeReady | Stage::FaucetReady => Some(
            PollPolicy { interval_ms: PROBE_INTERVAL_MS, bound: PollBound::Attempts(560) },
        ),
        Stage::BackendReady => Some(
            PollPolicy { interval_ms: PROBE_INTERVAL_MS, bound: PollBound::Attempts(600) },
        ),
        Stage::WalletReady => Some(
            PollPolicy { interval_ms: PROBE_INTERVAL_MS, bound: PollBound::DeadlineMs(6_000_000) },
        ),
        Stage::MiningMaturity => Some(
            PollPolicy { interval_ms: PROBE_INTERVAL_MS, bound: PollBound::DeadlineMs(60_000_000) },
        ),
        _ => None,
    }
}

/// A mining-maturity probe: ready once the observed height reaches `min_height`; a missing
/// height (the node did not answer) is retried.
pub fn maturity_outcome(height: Option<u64>, min_height: u64) -> (r: ReadinessOutcome)
    ensures
        r == (match height {
            Some(h) => if h >= min_height {
                ReadinessOutcome::Ready
            } else {
                ReadinessOutcome::NotReadyRetryable
            },
            None => ReadinessOutcome::NotReadyRetryable,
        }),
{
    match height {
        Some(h) => if h >= min_height {
            ReadinessOutcome::Ready
        } else {
            ReadinessOutcome::NotReadyRetryable
        },
        None => ReadinessOutcome::NotReadyRetryable,
    }
}

/// A wallet probe: ready once its address listing answers.
pub fn wallet_outcome(listing: Option<&str>) -> (r: ReadinessOutcome)
    ensures
        r == (match listing {
            Some(t) => if crate::extract::wallet_ready_spec(t@) {
                ReadinessOutcome::Ready
            } else {
                ReadinessOutcome::NotReadyRetryable
            },
            None => ReadinessOutcome::NotReadyRetryable,
        }),
{
    match listing {
        Some(t) => if crate::extract::wallet_ready(t) {
            ReadinessOutcome::Ready
        } else {
            ReadinessOutcome::NotReadyRetryable
        },
        None => ReadinessOutcome::NotReadyRetryable,
    }
}

/// Progress of a wait as a percentage of its length, held below 100 until it ends.
pub fn progress_percent(elapsed_ms: u64, total_ms: u64) -> (r: u64)
    requires
        total_ms > 0,
    ensures
        r == if elapsed_ms * 100 / total_ms as int > 99 {
            99
        } else {
            elapsed_ms * 100 / total_ms as int
        },
{
    let p: u128 = (elapsed_ms as u128) * 100 / (total_ms as u128);
    if p > 99 {
        99
    } else {
        p as u64
    }
}

/// Mined height as a percentage of the target height.
pub fn height_percent(height: u64, target: u64) -> (r: u128)
    requires
        target > 0,
    ensures
        r == height * 100 / target as int,
{
    (height as u128) * 100 / (target as u128)
}

} // verus!
