use vstd::prelude::*;

verus! {

/// Outcome of one probe against one target: either the request completed
/// (any status code counts as reachable) or it failed at the transport
/// level, in which case the error text is kept verbatim.
pub enum Outcome {
    Success { latency_ms: u128 },
    Failure { latency_ms: u128, description: String },
}

impl Outcome {
    pub open spec fn is_failure(self) -> bool {
        self matches Outcome::Failure { .. }
    }

    /// The error description of a failed probe, as a sequence of characters.
    pub open spec fn description_view(self) -> Seq<char>
        recommends
            self.is_failure(),
    {
        match self {
            Outcome::Failure { description, .. } => description@,
            Outcome::Success { .. } => Seq::empty(),
        }
    }

    pub open spec fn latency(self) -> u128 {
        match self {
            Outcome::Success { latency_ms } => latency_ms,
            Outcome::Failure { latency_ms, .. } => latency_ms,
        }
    }
}

/// One probe result: the target that was probed and how the probe went.
/// Created once per target per cycle and discarded at cycle end.
pub struct CheckResult {
    pub target: String,
    pub outcome: Outcome,
}

impl CheckResult {
    pub open spec fn is_failure(self) -> bool {
        self.outcome.is_failure()
    }

    pub open spec fn description_view(self) -> Seq<char> {
        self.outcome.description_view()
    }
}

/// Turn the raw outcome of one probe attempt into a `CheckResult`:
/// no error means the target was reachable, an error string means it was not.
pub fn classify_probe(target: String, latency_ms: u128, error: Option<String>) -> (r: CheckResult)
    ensures
        r.target == target,
        r.outcome.latency() == latency_ms,
        error is None ==> r.outcome == (Outcome::Success { latency_ms }),
        forall|d: String|
            error == Some(d) ==> r.outcome == (Outcome::Failure { latency_ms, description: d }),
{
    match error {
        None => CheckResult { target, outcome: Outcome::Success { latency_ms } },
        Some(description) => CheckResult {
            target,
            outcome: Outcome::Failure { latency_ms, description },
        },
    }
}

#[verifier::external_type_specification]
#[verifier::external_body]
pub struct ExClient(reqwest::blocking::Client);

/// Relies on rustls's `CryptoProvider::install_default`: makes the ring
/// crypto provider the process default, which the HTTP client needs before
/// it can open TLS connections. Installing twice is harmless: the first
/// installation stays and the second attempt's error is discarded.
#[verifier::external_body]
pub(crate) fn install_crypto_provider() {
    let _ = rustls::crypto::ring::default_provider().install_default();
}

/// Relies on reqwest's blocking `ClientBuilder::build`: assembles a blocking
/// HTTP client with default settings. A client that cannot be assembled (for
/// one, a TLS backend that fails to initialise) comes back as its error text
/// rather than a panic.
#[verifier::external_body]
fn new_http_client() -> Result<reqwest::blocking::Client, String> {
    match reqwest::blocking::Client::builder().build() {
        Ok(client) => Ok(client),
        Err(err) => Err(err.to_string()),
    }
}

/// Relies on reqwest's blocking `RequestBuilder::send` to issue a single GET
/// request against `url`; the monotonic clock is read just before the send and
/// just after the response or error arrives, giving the elapsed milliseconds.
/// Nothing is promised of the outcome: reachability, the error text and the
/// latency all depend on the network and the machine.
#[verifier::external_body]
fn probe_once(client: &reqwest::blocking::Client, url: &str) -> (u128, Option<String>) {
    let start = std::time::Instant::now();
    let response = client.get(url).send();
    let latency_ms = start.elapsed().as_millis();
    match response {
        Ok(_) => (latency_ms, None),
        Err(err) => (latency_ms, Some(err.to_string())),
    }
}

/// Probes targets one at a time, in order, one attempt each, with no retries
/// and no concurrency: the result sequence has exactly one entry per input
/// target, in the same order.
pub struct HealthChecker {
    client: reqwest::blocking::Client,
}

impl HealthChecker {
    /// Assemble the probing client, or hand back the transport layer's own
    /// error text when it cannot be built.
    pub fn new() -> Result<HealthChecker, String> {
        install_crypto_provider();
        match new_http_client() {
            Ok(client) => Ok(HealthChecker { client }),
            Err(err) => Err(err),
        }
    }

    /// One probe per target, same order, one result each. Which targets
    /// succeed is up to the network; what is guaranteed is the shape of the
    /// answer: `results[i]` is about `targets[i]`, for every `i`.
    pub fn check(&self, targets: &Vec<String>) -> (results: Vec<CheckResult>)
        ensures
            results@.len() == targets@.len(),
            forall|i: int|
                0 <= i < targets@.len() ==> (#[trigger] results@[i]).target@ == targets@[i]@,
    {
        let mut results: Vec<CheckResult> = Vec::new();
        let mut idx: usize = 0;
        while idx < targets.len()
            invariant
                idx <= targets@.len(),
                results@.len() == idx,
                forall|i: int|
                    0 <= i < idx as int ==> (#[trigger] results@[i]).target@ == targets@[i]@,
            decreases targets@.len() - idx,
        {
            let target = &targets[idx];
            let (latency_ms, error) = probe_once(&self.client, target.as_str());
            let result = classify_probe(target.clone(), latency_ms, error);
            results.push(result);
            idx += 1;
        }
        results
    }
}

} // verus!
