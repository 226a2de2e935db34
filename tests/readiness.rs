use zeckit::poller::{PollBound, PollPolicy};
use zeckit::readiness::{
    block_height, classify, health_outcome, height_in, HealthChecker, Observation, ProbeKind,
    ReadinessOutcome, ServiceEndpoint,
};

fn answered(success: bool, body: &str) -> Observation {
    Observation::Answered { success, body: body.to_string() }
}

#[test]
fn unreachable_is_retryable_for_every_kind() {
    for kind in [ProbeKind::Rpc, ProbeKind::Rest, ProbeKind::RawTcp] {
        assert_eq!(classify(kind, &Observation::Unreachable), ReadinessOutcome::NotReadyRetryable);
    }
}

#[test]
fn node_rpc_answer_with_height() {
    let body = "{\"result\": 42}";
    assert_eq!(classify(ProbeKind::Rpc, &answered(true, body)), ReadinessOutcome::Ready);
    assert_eq!(block_height(body), Some(42));
}

#[test]
fn node_rpc_error_status_is_retryable() {
    assert_eq!(
        classify(ProbeKind::Rpc, &answered(false, "{\"result\": 42}")),
        ReadinessOutcome::NotReadyRetryable
    );
}

#[test]
fn block_height_missing_or_invalid() {
    assert_eq!(block_height("not json"), None);
    assert_eq!(block_height("{\"error\": \"warming up\"}"), None);
    assert_eq!(block_height("{\"result\": -1}"), None);
    assert_eq!(block_height("{\"result\": \"42\"}"), None);
    let v: serde_json::Value = serde_json::from_str("{\"result\": 101}").unwrap();
    assert_eq!(height_in(&v), Some(101));
}

#[test]
fn rest_health_statuses() {
    assert_eq!(classify(ProbeKind::Rest, &answered(true, "{\"status\":\"ok\"}")), ReadinessOutcome::Ready);
    assert_eq!(classify(ProbeKind::Rest, &answered(true, "{}")), ReadinessOutcome::Ready);
    assert_eq!(
        classify(ProbeKind::Rest, &answered(true, "{\"status\":\"unhealthy\"}")),
        ReadinessOutcome::NotReadyRetryable
    );
    assert_eq!(
        classify(ProbeKind::Rest, &answered(true, "<html>")),
        ReadinessOutcome::NotReadyRetryable
    );
    assert_eq!(
        classify(ProbeKind::Rest, &answered(false, "{\"status\":\"ok\"}")),
        ReadinessOutcome::NotReadyRetryable
    );
}

#[test]
fn health_outcome_on_parsed_body() {
    let v: serde_json::Value = serde_json::from_str("{\"status\":\"unhealthy\"}").unwrap();
    assert_eq!(health_outcome(true, Some(&v)), ReadinessOutcome::NotReadyRetryable);
    let v: serde_json::Value = serde_json::from_str("{\"status\":\"healthy\"}").unwrap();
    assert_eq!(health_outcome(true, Some(&v)), ReadinessOutcome::Ready);
    assert_eq!(health_outcome(true, None), ReadinessOutcome::NotReadyRetryable);
    assert_eq!(health_outcome(false, Some(&v)), ReadinessOutcome::NotReadyRetryable);
}

#[test]
fn raw_tcp_ready_on_connect() {
    assert_eq!(classify(ProbeKind::RawTcp, &Observation::Connected), ReadinessOutcome::Ready);
}

#[test]
fn observation_of_the_wrong_kind_is_fatal() {
    assert!(matches!(classify(ProbeKind::RawTcp, &answered(true, "{}")), ReadinessOutcome::Fatal(_)));
    assert!(matches!(classify(ProbeKind::Rpc, &Observation::Connected), ReadinessOutcome::Fatal(_)));
}

#[test]
fn health_checker_policies() {
    let h = HealthChecker::new();
    assert_eq!(h.max_retries, 560);
    assert_eq!(h.retry_delay_ms, 2000);
    assert_eq!(h.backend_max_retries, 600);
    assert_eq!(h.service_policy(), PollPolicy { interval_ms: 2000, bound: PollBound::Attempts(560) });
    assert_eq!(h.backend_policy(), PollPolicy { interval_ms: 2000, bound: PollBound::Attempts(600) });
}

#[test]
fn fixed_service_endpoints() {
    let n = ServiceEndpoint::node();
    assert_eq!((n.kind, n.address.as_str(), n.port), (ProbeKind::Rpc, "127.0.0.1", 8232));
    let f = ServiceEndpoint::faucet();
    assert_eq!((f.kind, f.address.as_str(), f.port), (ProbeKind::Rest, "127.0.0.1", 8080));
    let b = ServiceEndpoint::backend();
    assert_eq!((b.kind, b.address.as_str(), b.port), (ProbeKind::RawTcp, "127.0.0.1", 9067));
}
