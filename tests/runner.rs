use zeckit::readiness::Observation;
use zeckit::runner::{
    check_faucet_address, check_faucet_health, check_faucet_stats, check_funding, check_node_rpc,
    fixture_address, funding_precheck, funding_verdict, golden_advance, golden_check, outcome_of,
    stats_verdict, summarize, FaucetFailure, GoldenAction, GoldenStage, StageOutcome, StageResult,
};

fn result(outcome: StageOutcome) -> StageResult {
    StageResult { name: "stage".to_string(), outcome, detail: String::new() }
}

#[test]
fn stats_shape_needs_both_fields() {
    let both = check_faucet_stats(true, "{\"faucet_address\":\"t1abc\",\"current_balance\":0}");
    assert_eq!(both, Ok(()));
    assert_eq!(outcome_of(&both), StageOutcome::Pass);
    let missing = check_faucet_stats(true, "{\"faucet_address\":\"t1abc\"}");
    assert_eq!(missing, Err(FaucetFailure::MissingCurrentBalance));
    assert_eq!(outcome_of(&missing), StageOutcome::Fail);
    assert_eq!(check_faucet_stats(true, "{\"current_balance\":0}"), Err(FaucetFailure::MissingFaucetAddress));
    assert_eq!(
        check_faucet_stats(false, "{\"faucet_address\":\"t1abc\",\"current_balance\":0}"),
        Err(FaucetFailure::ErrorStatus)
    );
    assert_eq!(check_faucet_stats(true, "nonsense"), Err(FaucetFailure::NotJson));
    let v: serde_json::Value = serde_json::from_str("{\"faucet_address\":\"x\",\"current_balance\":1.5}").unwrap();
    assert_eq!(stats_verdict(&v), Ok(()));
}

#[test]
fn failure_messages() {
    assert_eq!(FaucetFailure::MissingFaucetAddress.message(), "Stats missing faucet_address");
    assert_eq!(FaucetFailure::MissingCurrentBalance.message(), "Stats missing current_balance");
    assert_eq!(FaucetFailure::NoTxid.message(), "No TXID in response");
    assert_eq!(FaucetFailure::EmptyTxid.message(), "Empty TXID returned");
}

#[test]
fn golden_flow_stops_at_shielded_send_without_txid() {
    let out = "Sending 0.0001 to uregtest1...\nerror: insufficient shielded funds\n";
    let outcome = golden_check(GoldenStage::ShieldedSend, out);
    assert_eq!(outcome, StageOutcome::Fail);
    assert_eq!(
        golden_advance(GoldenStage::ShieldedSend, outcome),
        GoldenAction::Abort { stage: GoldenStage::ShieldedSend, number: 4, total: 6 }
    );
}

#[test]
fn golden_flow_runs_all_six_stages_when_each_passes() {
    let mut s = GoldenStage::GenerateAddress;
    let mut ran = 1;
    loop {
        match golden_advance(s, StageOutcome::Pass) {
            GoldenAction::Run(n) => {
                s = n;
                ran += 1;
            }
            GoldenAction::Complete => break,
            other => panic!("unexpected {:?}", other),
        }
    }
    assert_eq!(ran, 6);
    assert_eq!(s, GoldenStage::VerifyState);
}

#[test]
fn golden_checks() {
    assert_eq!(golden_check(GoldenStage::Autoshield, "{ \"txid\": \"ab12\" }"), StageOutcome::Pass);
    assert_eq!(golden_check(GoldenStage::Autoshield, "{ \"txid\": \"\" }"), StageOutcome::Fail);
    assert_eq!(golden_check(GoldenStage::Rescan, ""), StageOutcome::Pass);
    assert_eq!(golden_check(GoldenStage::VerifyState, "\"confirmed_orchard_balance\": 10"), StageOutcome::Pass);
    assert_eq!(golden_check(GoldenStage::VerifyState, "\"confirmed_transparent_balance\": 10"), StageOutcome::Fail);
    let ua = "\"address\": \"uregtest1qz8m6c3v9vq2x7wz0h4kxg8ap2l6y3c5dmr0u6fjq7n9e4s2t8w5k3h7j0p6x9v4c2m8n5b1\"";
    assert_eq!(golden_check(GoldenStage::GenerateAddress, ua), StageOutcome::Pass);
    assert_eq!(golden_check(GoldenStage::GenerateAddress, "no address"), StageOutcome::Fail);
}

#[test]
fn summary_counts_and_failure() {
    let results = vec![
        result(StageOutcome::Pass),
        result(StageOutcome::Fail),
        result(StageOutcome::Skip),
        result(StageOutcome::Pass),
    ];
    let s = summarize(&results);
    assert_eq!((s.passed, s.failed, s.skipped), (2, 1, 1));
    assert!(s.failed_run());
    let s = summarize(&vec![result(StageOutcome::Pass), result(StageOutcome::Skip)]);
    assert!(!s.failed_run());
    let s = summarize(&vec![]);
    assert_eq!((s.passed, s.failed, s.skipped), (0, 0, 0));
}

#[test]
fn node_rpc_and_health_checks() {
    let ok = Observation::Answered { success: true, body: "{\"result\": 3}".to_string() };
    assert_eq!(check_node_rpc(&ok), StageOutcome::Pass);
    assert_eq!(check_node_rpc(&Observation::Unreachable), StageOutcome::Fail);
    let healthy = Observation::Answered { success: true, body: "{\"status\":\"healthy\"}".to_string() };
    assert_eq!(check_faucet_health(&healthy), StageOutcome::Pass);
    let bad = Observation::Answered { success: false, body: String::new() };
    assert_eq!(check_faucet_health(&bad), StageOutcome::Fail);
}

#[test]
fn address_check() {
    assert_eq!(check_faucet_address(true, "{\"address\":\"tmAbc\"}"), Ok(()));
    assert_eq!(check_faucet_address(true, "{\"addr\":\"tmAbc\"}"), Err(FaucetFailure::MissingAddress));
    assert_eq!(check_faucet_address(false, "{\"address\":\"tmAbc\"}"), Err(FaucetFailure::ErrorStatus));
}

#[test]
fn funding_skipped_on_low_balance() {
    assert_eq!(funding_precheck(Some(5_000_000)), Some(StageOutcome::Skip));
    assert_eq!(funding_precheck(Some(10_000_000)), None);
    assert_eq!(funding_precheck(None), None);
}

#[test]
fn funding_needs_nonempty_txid() {
    assert_eq!(check_funding(true, "{\"txid\":\"abc\"}"), Ok(()));
    assert_eq!(check_funding(true, "{\"txid\":\"\"}"), Err(FaucetFailure::EmptyTxid));
    assert_eq!(check_funding(true, "{\"status\":\"sent\"}"), Err(FaucetFailure::NoTxid));
    assert_eq!(check_funding(true, "{\"txid\":7}"), Err(FaucetFailure::NoTxid));
    assert_eq!(check_funding(false, "{\"txid\":\"abc\"}"), Err(FaucetFailure::ErrorStatus));
    let v: serde_json::Value = serde_json::from_str("{\"txid\":\"ff\"}").unwrap();
    assert_eq!(funding_verdict(&v), Ok(()));
}

#[test]
fn fixture_address_read() {
    let v: serde_json::Value = serde_json::from_str("{\"test_address\":\"tmAbc\",\"type\":\"transparent\"}").unwrap();
    assert_eq!(fixture_address(&v), Some("tmAbc".to_string()));
    let v: serde_json::Value = serde_json::from_str("{\"test_address\":5}").unwrap();
    assert_eq!(fixture_address(&v), None);
}
