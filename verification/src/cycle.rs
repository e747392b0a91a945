use vstd::prelude::*;
use crate::aggregate::{aggregate, failure_keys, failure_map, lemma_all_success_empty, FailureSet};
use crate::check::{CheckResult, HealthChecker};
use crate::config::{Config, ConfigError};
use crate::notify::{dispatch, DispatchError};

verus! {

/// What one cycle did: the probe results in target order, the failure set
/// they denote, and — iff that set is non-empty — the outcome of the one
/// dispatch attempt. Everything in it is cycle-local.
pub struct CycleReport {
    pub results: Vec<CheckResult>,
    pub failures: FailureSet,
    pub dispatch_result: Option<Result<(), DispatchError>>,
}

/// Run one cycle against an already-loaded configuration snapshot: probe
/// every target once, in order; aggregate the failures; and dispatch one
/// alert if and only if at least one target failed. A healthy cycle never
/// touches the notification provider.
pub fn run_cycle(checker: &HealthChecker, config: &Config) -> (report: CycleReport)
    ensures
        report.results@.len() == config.targets@.len(),
        forall|i: int|
            0 <= i < config.targets@.len() ==> (#[trigger] report.results@[i]).target@
                == config.targets@[i]@,
        report.failures.wf(),
        report.failures@ == failure_map(report.results@),
        report.failures.key_seq() == failure_keys(report.results@),
        report.dispatch_result is Some <==> report.failures.key_seq().len() > 0,
        (forall|i: int| 0 <= i < report.results@.len() ==> !(#[trigger] report.results@[i]).is_failure())
            ==> report.dispatch_result is None,
{
    let results = checker.check(&config.targets);
    let failures = aggregate(&results);
    let dispatch_result = if failures.is_empty() {
        None
    } else {
        Some(dispatch(&failures, &config.notification))
    };
    proof {
        if forall|i: int| 0 <= i < results@.len() ==> !(#[trigger] results@[i]).is_failure() {
            lemma_all_success_empty(results@);
        }
    }
    CycleReport { results, failures, dispatch_result }
}

/// The scheduler's decision on a fresh load attempt: run one cycle on the
/// new snapshot, or — on a configuration error — stop for good, since there
/// is no safe default to fall back to.
pub enum CycleDecision {
    Run(Config),
    Stop(ConfigError),
}

/// The only transition out of the scheduler's idle state: a good load
/// starts a cycle with exactly the loaded snapshot; a failed load ends the
/// loop, surfacing the error.
pub fn decide_cycle(loaded: Result<Config, ConfigError>) -> (d: CycleDecision)
    ensures
        loaded matches Ok(c) ==> d == CycleDecision::Run(c),
        loaded matches Err(e) ==> d == CycleDecision::Stop(e),
{
    match loaded {
        Ok(c) => CycleDecision::Run(c),
        Err(e) => CycleDecision::Stop(e),
    }
}

} // verus!
