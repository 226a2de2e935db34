use vstd::prelude::*;
use crate::json::{json_strs, json_u64s, parse_json, parsed, str_field, u64_field};
use crate::poller::{PollBound, PollPolicy};
use crate::text::text_eq;

verus! {

/// Field of a health answer that may report the service as unhealthy.
pub const STATUS_FIELD: &'static str = "status";

pub const UNHEALTHY: &'static str = "unhealthy";

/// Field of a node RPC answer that holds the block height.
pub const HEIGHT_FIELD: &'static str = "result";

/// How a service is probed.
#[derive(Clone, Copy, Debug, PartialEq, Eq, Structural)]
pub enum ProbeKind {
    Rpc,
    Rest,
    RawTcp,
}

/// A service to probe.
#[derive(Clone, Debug)]
pub struct ServiceEndpoint {
    pub kind: ProbeKind,
    pub address: String,
    pub port: u16,
}

impl ServiceEndpoint {
    /// The node's JSON-RPC server.
    pub fn node() -> (r: ServiceEndpoint)
        ensures
            r.kind is Rpc && r.address@ == "127.0.0.1"@ && r.port == 8232,
    {
        ServiceEndpoint { kind: ProbeKind::Rpc, address: String::from_str("127.0.0.1"), port: 8232 }
    }

    /// The faucet's REST API.
    pub fn faucet() -> (r: ServiceEndpoint)
        ensures
            r.kind is Rest && r.address@ == "127.0.0.1"@ && r.port == 8080,
    {
        ServiceEndpoint { kind: ProbeKind::Rest, address: String::from_str("127.0.0.1"), port: 8080 }
    }

    /// The light-client backend, which only accepts gRPC, so only a connection is observed.
    pub fn backend() -> (r: ServiceEndpoint)
        ensures
            r.kind is RawTcp && r.address@ == "127.0.0.1"@ && r.port == 9067,
    {
        ServiceEndpoint { kind: ProbeKind::RawTcp, address: String::from_str("127.0.0.1"), port: 9067 }
    }
}

/// The result of one probe.
#[derive(Clone, Debug, PartialEq, Eq)]
pub enum ReadinessOutcome {
    Ready,
    NotReadyRetryable,
    Fatal(String),
}

/// What one probe saw: no answer within its timeout, an HTTP answer, or an accepted TCP
/// connection.
#[derive(Clone, Debug)]
pub enum Observation {
    Unreachable,
    Answered { success: bool, body: String },
    Connected,
}

/// The answer's `status` field says that the service is unhealthy.
pub open spec fn reports_unhealthy(v: serde_json::Value) -> bool {
    json_strs(v).contains_key(STATUS_FIELD@) && json_strs(v)[STATUS_FIELD@] == UNHEALTHY@
}

/// The outcome of a health answer, once its body has been read as JSON (`None` when it is not
/// JSON).
pub open spec fn health_outcome_spec(success: bool, body: Option<serde_json::Value>) -> ReadinessOutcome {
    if !success {
        ReadinessOutcome::NotReadyRetryable
    } else {
        match body {
            None => ReadinessOutcome::NotReadyRetryable,
            Some(v) => if reports_unhealthy(v) {
                ReadinessOutcome::NotReadyRetryable
            } else {
                ReadinessOutcome::Ready
            },
        }
    }
}

/// The outcome of a health answer: ready on a success status with a JSON body that does not
/// report the service unhealthy; an unhealthy service is up but not yet usable, so it is
/// retried rather than fatal.
pub fn health_outcome(success: bool, body: Option<&serde_json::Value>) -> (r: ReadinessOutcome)
    ensures
        r == health_outcome_spec(
            success,
            match body {
                Some(v) => Some(*v),
                None => None,
            },
        ),
{
    if !success {
        return ReadinessOutcome::NotReadyRetryable;
    }
    match body {
        None => ReadinessOutcome::NotReadyRetryable,
        Some(v) => {
            let unhealthy = match str_field(v, STATUS_FIELD) {
                Some(s) => text_eq(s.as_str(), UNHEALTHY),
                None => false,
            };
            if unhealthy {
                ReadinessOutcome::NotReadyRetryable
            } else {
                ReadinessOutcome::Ready
            }
        },
    }
}

/// An observation that the probe kind can make.
pub open spec fn fits(kind: ProbeKind, obs: Observation) -> bool {
    match obs {
        Observation::Unreachable => true,
        Observation::Answered { .. } => kind is Rpc || kind is Rest,
        Observation::Connected => kind is RawTcp,
    }
}

/// The outcome of one probe. An unreachable service is never fatal, whatever the kind; an
/// RPC endpoint is ready on any success status; a REST endpoint as `health_outcome` says; a
/// raw TCP endpoint as soon as it accepts a connection. Only an observation that the kind
/// cannot make is fatal.
pub fn classify(kind: ProbeKind, obs: &Observation) -> (r: ReadinessOutcome)
    ensures
        obs is Unreachable ==> r is NotReadyRetryable,
        !fits(kind, *obs) <==> r is Fatal,
        kind is Rpc ==> (*obs matches Observation::Answered { success, .. } ==> r == (if success {
            ReadinessOutcome::Ready
        } else {
            ReadinessOutcome::NotReadyRetryable
        })),
        kind is Rest ==> (*obs matches Observation::Answered { success, body } ==> r
            == health_outcome_spec(success, parsed(body@))),
        kind is RawTcp ==> (obs is Connected ==> r is Ready),
{
    match obs {
        Observation::Unreachable => ReadinessOutcome::NotReadyRetryable,
        Observation::Answered { success, body } => match kind {
            ProbeKind::Rpc => if *success {
                ReadinessOutcome::Ready
            } else {
                ReadinessOutcome::NotReadyRetryable
            },
            ProbeKind::Rest => {
                if !*success {
                    return ReadinessOutcome::NotReadyRetryable;
                }
                let parsed = parse_json(body.as_str());
                health_outcome(true, parsed.as_ref())
            },
            ProbeKind::RawTcp => ReadinessOutcome::Fatal(
                String::from_str("an HTTP answer from a raw TCP endpoint"),
            ),
        },
        Observation::Connected => match kind {
            ProbeKind::RawTcp => ReadinessOutcome::Ready,
            _ => ReadinessOutcome::Fatal(String::from_str("a bare connection from an HTTP endpoint")),
        },
    }
}

/// The block height in a node RPC answer that has been read as JSON.
pub fn height_in(v: &serde_json::Value) -> (r: Option<u64>)
    ensures
        match r {
            Some(h) => json_u64s(*v).contains_key(HEIGHT_FIELD@) && json_u64s(*v)[HEIGHT_FIELD@] == h,
            None => !json_u64s(*v).contains_key(HEIGHT_FIELD@),
        },
{
    u64_field(v, HEIGHT_FIELD)
}

/// The block height in the body of a node RPC answer: `None` when the body is not JSON or
/// has no non-negative integer `result`.
pub fn block_height(body: &str) -> (r: Option<u64>)
    ensures
        r == (match parsed(body@) {
            Some(v) => if json_u64s(v).contains_key(HEIGHT_FIELD@) {
                Some(json_u64s(v)[HEIGHT_FIELD@])
            } else {
                None
            },
            None => None,
        }),
{
    match parse_json(body) {
        Some(v) => height_in(&v),
        None => None,
    }
}

/// The readiness policies of the node, faucet and backend checks.
#[derive(Clone, Copy, Debug)]
pub struct HealthChecker {
    pub max_retries: u64,
    pub retry_delay_ms: u64,
    pub backend_max_retries: u64,
}

impl HealthChecker {
    pub fn new() -> (r: HealthChecker)
        ensures
            r.max_retries == 560,
            r.retry_delay_ms == 2000,
            r.backend_max_retries == 600,
    {
        HealthChecker { max_retries: 560, retry_delay_ms: 2000, backend_max_retries: 600 }
    }

    /// Policy of the node and faucet checks.
    pub fn service_policy(&self) -> (r: PollPolicy)
        ensures
            r.interval_ms == self.retry_delay_ms,
            r.bound == PollBound::Attempts(self.max_retries),
    {
        PollPolicy { interval_ms: self.retry_delay_ms, bound: PollBound::Attempts(self.max_retries) }
    }

    /// Policy of the backend check, which may take longer on a first start.
    pub fn backend_policy(&self) -> (r: PollPolicy)
        ensures
            r.interval_ms == self.retry_delay_ms,
            r.bound == PollBound::Attempts(self.backend_max_retries),
    {
        PollPolicy {
            interval_ms: self.retry_delay_ms,
            bound: PollBound::Attempts(self.backend_max_retries),
        }
    }
}

} // verus!
