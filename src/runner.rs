use vstd::prelude::*;
use crate::extract::{
    address_of, extract_address, extract_txid, txid_of, AddressKind, SHIELDED_BALANCE_FIELD,
};
use crate::json::{has_field, json_keys, json_strs, parse_json, parsed, str_field};
use crate::readiness::{classify, health_outcome_spec, Observation, ProbeKind, ReadinessOutcome};
use crate::text::{chars_of, contains, occurs};

verus! {

/// Fields that the faucet's answers must hold.
pub const FAUCET_ADDRESS_FIELD: &'static str = "faucet_address";

pub const CURRENT_BALANCE_FIELD: &'static str = "current_balance";

pub const ADDRESS_FIELD: &'static str = "address";

pub const TXID_FIELD: &'static str = "txid";

/// Field of the test-address fixture that holds the address.
pub const FIXTURE_ADDRESS_FIELD: &'static str = "test_address";

/// The amount a funding request asks for, and the faucet balance below which the request is
/// skipped, in micro-units.
pub const FUNDING_AMOUNT: u64 = 10_000_000;

pub const MIN_FAUCET_BALANCE: u64 = 10_000_000;

/// Number of stages of the golden end-to-end flow.
pub const GOLDEN_STAGES: u64 = 6;

/// How a verification stage ended. A skip is inconclusive, not a failure.
#[derive(Clone, Copy, Debug, PartialEq, Eq, Structural)]
pub enum StageOutcome {
    Pass,
    Fail,
    Skip,
}

#[derive(Clone, Debug)]
pub struct StageResult {
    pub name: String,
    pub outcome: StageOutcome,
    pub detail: String,
}

/// Counts of a run's stage outcomes.
#[derive(Clone, Copy, Debug, PartialEq, Eq, Structural)]
pub struct RunSummary {
    pub passed: u64,
    pub failed: u64,
    pub skipped: u64,
}

pub open spec fn count_of(outcomes: Seq<StageOutcome>, o: StageOutcome) -> nat
    decreases outcomes.len(),
{
    if outcomes.len() == 0 {
        0
    } else {
        count_of(outcomes.drop_last(), o) + if outcomes.last() == o {
            1nat
        } else {
            0nat
        }
    }
}

pub open spec fn outcomes_of(results: Seq<StageResult>) -> Seq<StageOutcome> {
    results.map_values(|r: StageResult| r.outcome)
}

proof fn lemma_count_le(outcomes: Seq<StageOutcome>, o: StageOutcome)
    ensures
        count_of(outcomes, o) <= outcomes.len(),
    decreases outcomes.len(),
{
    if outcomes.len() > 0 {
        lemma_count_le(outcomes.drop_last(), o);
    }
}

/// The counts of passes, failures and skips of a run.
pub fn summarize(results: &Vec<StageResult>) -> (r: RunSummary)
    ensures
        r.passed == count_of(outcomes_of(results@), StageOutcome::Pass),
        r.failed == count_of(outcomes_of(results@), StageOutcome::Fail),
        r.skipped == count_of(outcomes_of(results@), StageOutcome::Skip),
{
    let ghost all = outcomes_of(results@);
    let mut s = RunSummary { passed: 0, failed: 0, skipped: 0 };
    let mut i: usize = 0;
    while i < results.len()
        invariant
            all == outcomes_of(results@),
            i <= results.len(),
            s.passed == count_of(all.subrange(0, i as int), StageOutcome::Pass),
            s.failed == count_of(all.subrange(0, i as int), StageOutcome::Fail),
            s.skipped == count_of(all.subrange(0, i as int), StageOutcome::Skip),
        decreases results.len() - i,
    {
        let ghost pre = all.subrange(0, i as int);
        let ghost next = all.subrange(0, i + 1);
        proof {
            assert(next.drop_last() =~= pre);
            assert(next.last() == results@[i as int].outcome);
            lemma_count_le(pre, StageOutcome::Pass);
            lemma_count_le(pre, StageOutcome::Fail);
            lemma_count_le(pre, StageOutcome::Skip);
        }
        match results[i].outcome {
            StageOutcome::Pass => s.passed = s.passed + 1,
            StageOutcome::Fail => s.failed = s.failed + 1,
            StageOutcome::Skip => s.skipped = s.skipped + 1,
        }
        i += 1;
    }
    proof {
        assert(all.subrange(0, results.len() as int) =~= all);
    }
    s
}

impl RunSummary {
    /// A run fails when one of its stages failed; skips do not count.
    pub fn failed_run(&self) -> (r: bool)
        ensures
            r == (self.failed > 0),
    {
        self.failed > 0
    }
}

/// Node RPC connectivity passes when the node answers with a success status.
pub fn check_node_rpc(obs: &Observation) -> (r: StageOutcome)
    ensures
        (r is Pass) == (*obs matches Observation::Answered { success, .. } && success),
        !(r is Skip),
{
    match classify(ProbeKind::Rpc, obs) {
        ReadinessOutcome::Ready => StageOutcome::Pass,
        _ => StageOutcome::Fail,
    }
}

/// Faucet health passes when the faucet's health answer is ready.
pub fn check_faucet_health(obs: &Observation) -> (r: StageOutcome)
    ensures
        (r is Pass) == (*obs matches Observation::Answered { success, body }
            && health_outcome_spec(success, parsed(body@)) is Ready),
        !(r is Skip),
{
    match classify(ProbeKind::Rest, obs) {
        ReadinessOutcome::Ready => StageOutcome::Pass,
        _ => StageOutcome::Fail,
    }
}

/// Why a faucet answer failed its check.
#[derive(Clone, Copy, Debug, PartialEq, Eq, Structural)]
pub enum FaucetFailure {
    ErrorStatus,
    NotJson,
    MissingFaucetAddress,
    MissingCurrentBalance,
    MissingAddress,
    NoTxid,
    EmptyTxid,
}

impl FaucetFailure {
    /// A short account of the failure for the stage's report.
    pub fn message(self) -> (r: &'static str)
        ensures
            r@.len() > 0,
    {
        proof {
            reveal_strlit("Faucet answered with an error status");
            reveal_strlit("Faucet answer is not JSON");
            reveal_strlit("Stats missing faucet_address");
            reveal_strlit("Stats missing current_balance");
            reveal_strlit("Invalid address response");
            reveal_strlit("No TXID in response");
            reveal_strlit("Empty TXID returned");
        }
        match self {
            FaucetFailure::ErrorStatus => "Faucet answered with an error status",
            FaucetFailure::NotJson => "Faucet answer is not JSON",
            FaucetFailure::MissingFaucetAddress => "Stats missing faucet_address",
            FaucetFailure::MissingCurrentBalance => "Stats missing current_balance",
            FaucetFailure::MissingAddress => "Invalid address response",
            FaucetFailure::NoTxid => "No TXID in response",
            FaucetFailure::EmptyTxid => "Empty TXID returned",
        }
    }
}

/// The verdict on a whole faucet answer: an error status, then a body that is not JSON, then
/// what `shape` says of the document.
pub open spec fn answer_verdict(
    success: bool,
    body: Seq<char>,
    shape: spec_fn(serde_json::Value) -> Result<(), FaucetFailure>,
) -> Result<(), FaucetFailure> {
    if !success {
        Err(FaucetFailure::ErrorStatus)
    } else {
        match parsed(body) {
            Some(v) => shape(v),
            None => Err(FaucetFailure::NotJson),
        }
    }
}

pub open spec fn stats_verdict_spec(v: serde_json::Value) -> Result<(), FaucetFailure> {
    if !json_keys(v).contains(FAUCET_ADDRESS_FIELD@) {
        Err(FaucetFailure::MissingFaucetAddress)
    } else if !json_keys(v).contains(CURRENT_BALANCE_FIELD@) {
        Err(FaucetFailure::MissingCurrentBalance)
    } else {
        Ok(())
    }
}

/// The stats answer passes when it names both the faucet address and the current balance,
/// whatever their values; otherwise it says which is missing.
pub fn stats_verdict(v: &serde_json::Value) -> (r: Result<(), FaucetFailure>)
    ensures
        r == stats_verdict_spec(*v),
{
    if !has_field(v, FAUCET_ADDRESS_FIELD) {
        Err(FaucetFailure::MissingFaucetAddress)
    } else if !has_field(v, CURRENT_BALANCE_FIELD) {
        Err(FaucetFailure::MissingCurrentBalance)
    } else {
        Ok(())
    }
}

/// The stats check on a whole answer.
pub fn check_faucet_stats(success: bool, body: &str) -> (r: Result<(), FaucetFailure>)
    ensures
        r == answer_verdict(success, body@, |v: serde_json::Value| stats_verdict_spec(v)),
{
    if !success {
        return Err(FaucetFailure::ErrorStatus);
    }
    match parse_json(body) {
        Some(v) => stats_verdict(&v),
        None => Err(FaucetFailure::NotJson),
    }
}

pub open spec fn address_verdict_spec(v: serde_json::Value) -> Result<(), FaucetFailure> {
    if json_keys(v).contains(ADDRESS_FIELD@) {
        Ok(())
    } else {
        Err(FaucetFailure::MissingAddress)
    }
}

/// The address answer passes when it names an address.
pub fn address_verdict(v: &serde_json::Value) -> (r: Result<(), FaucetFailure>)
    ensures
        r == address_verdict_spec(*v),
{
    if has_field(v, ADDRESS_FIELD) {
        Ok(())
    } else {
        Err(FaucetFailure::MissingAddress)
    }
}

/// The address check on a whole answer.
pub fn check_faucet_address(success: bool, body: &str) -> (r: Result<(), FaucetFailure>)
    ensures
        r == answer_verdict(success, body@, |v: serde_json::Value| address_verdict_spec(v)),
{
    if !success {
        return Err(FaucetFailure::ErrorStatus);
    }
    match parse_json(body) {
        Some(v) => address_verdict(&v),
        None => Err(FaucetFailure::NotJson),
    }
}

/// Whether a funding request is worth sending: a faucet known to hold less than
/// `MIN_FAUCET_BALANCE` is expected on a fresh network, so the stage is skipped; an unknown
/// balance does not stop the request.
pub fn funding_precheck(balance: Option<u64>) -> (r: Option<StageOutcome>)
    ensures
        r == (match balance {
            Some(b) => if b < MIN_FAUCET_BALANCE {
                Some(StageOutcome::Skip)
            } else {
                None::<StageOutcome>
            },
            None => None,
        }),
{
    match balance {
        Some(b) => if b < MIN_FAUCET_BALANCE {
            Some(StageOutcome::Skip)
        } else {
            None
        },
        None => None,
    }
}

pub open spec fn funding_verdict_spec(v: serde_json::Value) -> Result<(), FaucetFailure> {
    if !json_strs(v).contains_key(TXID_FIELD@) {
        Err(FaucetFailure::NoTxid)
    } else if json_strs(v)[TXID_FIELD@].len() == 0 {
        Err(FaucetFailure::EmptyTxid)
    } else {
        Ok(())
    }
}

/// The funding answer passes when it holds a non-empty transaction id; a missing id and an
/// empty one are told apart.
pub fn funding_verdict(v: &serde_json::Value) -> (r: Result<(), FaucetFailure>)
    ensures
        r == funding_verdict_spec(*v),
{
    match str_field(v, TXID_FIELD) {
        Some(t) => if t.as_str().is_empty() {
            Err(FaucetFailure::EmptyTxid)
        } else {
            Ok(())
        },
        None => Err(FaucetFailure::NoTxid),
    }
}

/// The funding check on a whole answer.
pub fn check_funding(success: bool, body: &str) -> (r: Result<(), FaucetFailure>)
    ensures
        r == answer_verdict(success, body@, |v: serde_json::Value| funding_verdict_spec(v)),
{
    if !success {
        return Err(FaucetFailure::ErrorStatus);
    }
    match parse_json(body) {
        Some(v) => funding_verdict(&v),
        None => Err(FaucetFailure::NotJson),
    }
}

/// The stage outcome of a check's verdict.
pub fn outcome_of(verdict: &Result<(), FaucetFailure>) -> (r: StageOutcome)
    ensures
        r == if verdict is Ok {
            StageOutcome::Pass
        } else {
            StageOutcome::Fail
        },
{
    match verdict {
        Ok(()) => StageOutcome::Pass,
        Err(_) => StageOutcome::Fail,
    }
}

/// The test address that a fixture records.
pub fn fixture_address(v: &serde_json::Value) -> (r: Option<String>)
    ensures
        match r {
            Some(a) => json_strs(*v).contains_key(FIXTURE_ADDRESS_FIELD@) && json_strs(
                *v,
            )[FIXTURE_ADDRESS_FIELD@] == a@,
            None => !json_strs(*v).contains_key(FIXTURE_ADDRESS_FIELD@),
        },
{
    str_field(v, FIXTURE_ADDRESS_FIELD)
}

/// The stages of the golden end-to-end flow, in order.
#[derive(Clone, Copy, Debug, PartialEq, Eq, Structural)]
pub enum GoldenStage {
    GenerateAddress,
    Fund,
    Autoshield,
    ShieldedSend,
    Rescan,
    VerifyState,
}

/// What the golden flow does next.
#[derive(Clone, Copy, Debug, PartialEq, Eq, Structural)]
pub enum GoldenAction {
    Run(GoldenStage),
    Abort { stage: GoldenStage, number: u64, total: u64 },
    Complete,
}

pub open spec fn golden_number(s: GoldenStage) -> u64 {
    match s {
        GoldenStage::GenerateAddress => 1,
        GoldenStage::Fund => 2,
        GoldenStage::Autoshield => 3,
        GoldenStage::ShieldedSend => 4,
        GoldenStage::Rescan => 5,
        GoldenStage::VerifyState => 6,
    }
}

/// A stage's position in the flow, from 1.
pub fn golden_stage_number(s: GoldenStage) -> (r: u64)
    ensures
        r == golden_number(s),
{
    match s {
        GoldenStage::GenerateAddress => 1,
        GoldenStage::Fund => 2,
        GoldenStage::Autoshield => 3,
        GoldenStage::ShieldedSend => 4,
        GoldenStage::Rescan => 5,
        GoldenStage::VerifyState => 6,
    }
}

pub open spec fn has_txid(output: Seq<char>) -> bool {
    txid_of(output) matches Some(t) && t.len() > 0
}

pub open spec fn golden_check_spec(s: GoldenStage, output: Seq<char>) -> StageOutcome {
    let ok = match s {
        GoldenStage::GenerateAddress => address_of(output, AddressKind::Unified) is Some,
        GoldenStage::Fund | GoldenStage::Autoshield | GoldenStage::ShieldedSend => has_txid(output),
        GoldenStage::Rescan => true,
        GoldenStage::VerifyState => occurs(output, SHIELDED_BALANCE_FIELD@),
    };
    if ok {
        StageOutcome::Pass
    } else {
        StageOutcome::Fail
    }
}

/// Whether a golden stage's output shows it worked: a fresh unified address; a funding,
/// shielding or shielded-send transaction id; for the final check, a shielded balance
/// section. A rescan that ran has worked.
pub fn golden_check(s: GoldenStage, output: &str) -> (r: StageOutcome)
    ensures
        r == golden_check_spec(s, output@),
{
    let ok = match s {
        GoldenStage::GenerateAddress => extract_address(output, AddressKind::Unified).is_ok(),
        GoldenStage::Fund | GoldenStage::Autoshield | GoldenStage::ShieldedSend => match extract_txid(output) {
            Ok(t) => !t.as_str().is_empty(),
            Err(_) => false,
        },
        GoldenStage::Rescan => true,
        GoldenStage::VerifyState => contains(&chars_of(output), &chars_of(SHIELDED_BALANCE_FIELD)),
    };
    if ok {
        StageOutcome::Pass
    } else {
        StageOutcome::Fail
    }
}

pub open spec fn golden_next(s: GoldenStage) -> Option<GoldenStage> {
    match s {
        GoldenStage::GenerateAddress => Some(GoldenStage::Fund),
        GoldenStage::Fund => Some(GoldenStage::Autoshield),
        GoldenStage::Autoshield => Some(GoldenStage::ShieldedSend),
        GoldenStage::ShieldedSend => Some(GoldenStage::Rescan),
        GoldenStage::Rescan => Some(GoldenStage::VerifyState),
        GoldenStage::VerifyState => None,
    }
}

/// What the golden flow does after a stage: every stage must pass, so anything else aborts
/// the flow at that stage, and no later stage runs.
pub fn golden_advance(s: GoldenStage, outcome: StageOutcome) -> (r: GoldenAction)
    ensures
        !(outcome is Pass) ==> r == (GoldenAction::Abort {
            stage: s,
            number: golden_number(s),
            total: GOLDEN_STAGES,
        }),
        outcome is Pass ==> r == (match golden_next(s) {
            Some(n) => GoldenAction::Run(n),
            None => GoldenAction::Complete,
        }),
{
    match outcome {
        StageOutcome::Pass => match s {
            GoldenStage::GenerateAddress => GoldenAction::Run(GoldenStage::Fund),
            GoldenStage::Fund => GoldenAction::Run(GoldenStage::Autoshield),
            GoldenStage::Autoshield => GoldenAction::Run(GoldenStage::ShieldedSend),
            GoldenStage::ShieldedSend => GoldenAction::Run(GoldenStage::Rescan),
            GoldenStage::Rescan => GoldenAction::Run(GoldenStage::VerifyState),
            GoldenStage::VerifyState => GoldenAction::Complete,
        },
        _ => GoldenAction::Abort { stage: s, number: golden_stage_number(s), total: GOLDEN_STAGES },
    }
}

} // verus!
