use zeckit::poller::{PollBound, PollPolicy};
use zeckit::readiness::ReadinessOutcome;
use zeckit::sequencer::{
    advance, height_percent, maturity_outcome, next_stage, on_failure, progress_percent,
    stage_policy, wallet_outcome, OnFailure, SequencerAction, Stage, StageReport,
};

fn failed(r: &str) -> StageReport {
    StageReport::Failed(r.to_string())
}

#[test]
fn full_order_with_backend() {
    let mut s = Stage::ContainersStarting;
    let mut seen = vec![s];
    loop {
        match advance(s, &StageReport::Succeeded, true) {
            SequencerAction::Run(n) => {
                s = n;
                seen.push(n);
            }
            SequencerAction::Finished => break,
            other => panic!("unexpected {:?}", other),
        }
    }
    assert_eq!(
        seen,
        vec![
            Stage::ContainersStarting,
            Stage::NodeReady,
            Stage::BackendReady,
            Stage::WalletReady,
            Stage::FaucetReady,
            Stage::AddressDiscovered,
            Stage::ConfigPatched,
            Stage::NodeRestarted,
            Stage::MiningMaturity,
            Stage::CoinbaseMaturityWindow,
            Stage::FixturesGenerated,
            Stage::WalletSynced,
            Stage::BalanceChecked,
        ]
    );
}

#[test]
fn backend_gate_skipped_without_backend() {
    assert_eq!(next_stage(Stage::NodeReady, false), Stage::WalletReady);
    assert_eq!(next_stage(Stage::NodeReady, true), Stage::BackendReady);
}

#[test]
fn readiness_timeout_aborts() {
    assert_eq!(
        advance(Stage::NodeReady, &failed("timed out"), true),
        SequencerAction::Abort { stage: Stage::NodeReady, reason: "timed out".to_string() }
    );
    assert!(matches!(
        advance(Stage::MiningMaturity, &failed("timed out"), true),
        SequencerAction::Abort { .. }
    ));
}

#[test]
fn address_discovery_failure_warns_and_goes_to_mining() {
    assert_eq!(
        advance(Stage::AddressDiscovered, &failed("no address"), false),
        SequencerAction::Warn {
            stage: Stage::AddressDiscovered,
            reason: "no address".to_string(),
            next: Stage::MiningMaturity,
        }
    );
    assert!(matches!(
        advance(Stage::ConfigPatched, &failed("x"), false),
        SequencerAction::Warn { next: Stage::MiningMaturity, .. }
    ));
}

#[test]
fn convenience_failures_still_reach_the_end() {
    assert!(matches!(
        advance(Stage::FixturesGenerated, &failed("x"), false),
        SequencerAction::Warn { next: Stage::WalletSynced, .. }
    ));
    assert_eq!(advance(Stage::BalanceChecked, &failed("x"), false), SequencerAction::Finished);
}

#[test]
fn failure_table() {
    for s in [Stage::ContainersStarting, Stage::NodeReady, Stage::BackendReady, Stage::WalletReady, Stage::FaucetReady, Stage::MiningMaturity] {
        assert_eq!(on_failure(s), OnFailure::Abort);
    }
    for s in [Stage::AddressDiscovered, Stage::ConfigPatched, Stage::NodeRestarted, Stage::CoinbaseMaturityWindow, Stage::FixturesGenerated, Stage::WalletSynced, Stage::BalanceChecked] {
        assert_eq!(on_failure(s), OnFailure::Warn);
    }
}

#[test]
fn stage_policies() {
    assert_eq!(stage_policy(Stage::NodeReady), Some(PollPolicy { interval_ms: 2000, bound: PollBound::Attempts(560) }));
    assert_eq!(stage_policy(Stage::WalletReady), Some(PollPolicy { interval_ms: 2000, bound: PollBound::DeadlineMs(6_000_000) }));
    assert_eq!(stage_policy(Stage::MiningMaturity), Some(PollPolicy { interval_ms: 2000, bound: PollBound::DeadlineMs(60_000_000) }));
    assert_eq!(stage_policy(Stage::ConfigPatched), None);
}

#[test]
fn mining_maturity_at_height_101() {
    assert_eq!(maturity_outcome(Some(101), 101), ReadinessOutcome::Ready);
    assert_eq!(maturity_outcome(Some(100), 101), ReadinessOutcome::NotReadyRetryable);
    assert_eq!(maturity_outcome(None, 101), ReadinessOutcome::NotReadyRetryable);
    assert_eq!(maturity_outcome(Some(5), 5), ReadinessOutcome::Ready);
    assert_eq!(maturity_outcome(Some(0), 0), ReadinessOutcome::Ready);
}

#[test]
fn wallet_readiness_from_listing() {
    assert_eq!(wallet_outcome(Some("\"encoded_address\": \"tmAbc\"")), ReadinessOutcome::Ready);
    assert_eq!(wallet_outcome(Some("starting")), ReadinessOutcome::NotReadyRetryable);
    assert_eq!(wallet_outcome(None), ReadinessOutcome::NotReadyRetryable);
}

#[test]
fn progress_percentages() {
    assert_eq!(progress_percent(60_000, 120_000), 50);
    assert_eq!(progress_percent(119_999, 120_000), 99);
    assert_eq!(progress_percent(500_000, 120_000), 99);
    assert_eq!(progress_percent(0, 120_000), 0);
    assert_eq!(height_percent(50, 101), 49);
    assert_eq!(height_percent(202, 101), 200);
}
