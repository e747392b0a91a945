use miradors::aggregate::{aggregate, FailureSet};
use miradors::check::{classify_probe, CheckResult, Outcome};

fn success(target: &str, latency_ms: u128) -> CheckResult {
    CheckResult { target: target.to_string(), outcome: Outcome::Success { latency_ms } }
}

fn failure(target: &str, latency_ms: u128, description: &str) -> CheckResult {
    CheckResult {
        target: target.to_string(),
        outcome: Outcome::Failure { latency_ms, description: description.to_string() },
    }
}

fn target_views(fs: &FailureSet) -> Vec<String> {
    fs.targets()
}

#[test]
fn all_success_yields_empty_set() {
    let results = vec![
        success("https://a.example", 10),
        success("https://b.example", 20),
        success("https://c.example", 30),
    ];
    let fs = aggregate(&results);
    assert!(fs.is_empty());
    assert_eq!(fs.len(), 0);
    assert!(target_views(&fs).is_empty());
}

#[test]
fn empty_results_yield_empty_set() {
    let results: Vec<CheckResult> = Vec::new();
    let fs = aggregate(&results);
    assert!(fs.is_empty());
}

#[test]
fn failing_targets_are_exactly_the_keys() {
    let results = vec![
        success("https://ok1.example", 10),
        failure("https://down1.example", 5000, "connection refused"),
        success("https://ok2.example", 15),
        failure("https://down2.example", 3000, "timed out"),
    ];
    let fs = aggregate(&results);
    assert!(!fs.is_empty());
    assert_eq!(fs.len(), 2);
    let keys = target_views(&fs);
    assert_eq!(keys, vec!["https://down1.example".to_string(), "https://down2.example".to_string()]);
    assert_eq!(
        fs.get(&"https://down1.example".to_string()),
        Some(&"connection refused".to_string())
    );
    assert_eq!(fs.get(&"https://down2.example".to_string()), Some(&"timed out".to_string()));
    assert_eq!(fs.get(&"https://ok1.example".to_string()), None);
    assert_eq!(fs.get(&"https://ok2.example".to_string()), None);
}

#[test]
fn aggregate_is_deterministic_and_idempotent() {
    let results = vec![
        failure("https://x.example", 1, "boom"),
        success("https://y.example", 2),
        failure("https://z.example", 3, "nope"),
    ];
    let first = aggregate(&results);
    let second = aggregate(&results);
    assert_eq!(first.len(), second.len());
    assert_eq!(target_views(&first), target_views(&second));
    for key in target_views(&first) {
        assert_eq!(first.get(&key), second.get(&key));
    }
}

#[test]
fn duplicate_target_last_write_wins() {
    let results = vec![
        failure("https://dup.example", 10, "first error"),
        success("https://other.example", 5),
        failure("https://dup.example", 20, "second error"),
    ];
    let fs = aggregate(&results);
    assert_eq!(fs.len(), 1);
    assert_eq!(fs.get(&"https://dup.example".to_string()), Some(&"second error".to_string()));
}

#[test]
fn duplicate_target_keeps_first_position() {
    let results = vec![
        failure("https://a.example", 1, "a1"),
        failure("https://b.example", 1, "b1"),
        failure("https://a.example", 1, "a2"),
    ];
    let fs = aggregate(&results);
    assert_eq!(
        target_views(&fs),
        vec!["https://a.example".to_string(), "https://b.example".to_string()]
    );
    assert_eq!(fs.get(&"https://a.example".to_string()), Some(&"a2".to_string()));
    assert_eq!(fs.get(&"https://b.example".to_string()), Some(&"b1".to_string()));
}

#[test]
fn insert_overwrites_value_not_order() {
    let mut fs = FailureSet::new();
    fs.insert("https://one.example".to_string(), "e1".to_string());
    fs.insert("https://two.example".to_string(), "e2".to_string());
    fs.insert("https://one.example".to_string(), "e3".to_string());
    assert_eq!(fs.len(), 2);
    assert_eq!(
        target_views(&fs),
        vec!["https://one.example".to_string(), "https://two.example".to_string()]
    );
    assert_eq!(fs.get(&"https://one.example".to_string()), Some(&"e3".to_string()));
}

#[test]
fn classify_probe_success_and_failure() {
    let ok = classify_probe("https://up.example".to_string(), 120, None);
    assert_eq!(ok.target, "https://up.example");
    match ok.outcome {
        Outcome::Success { latency_ms } => assert_eq!(latency_ms, 120),
        Outcome::Failure { .. } => panic!("expected success"),
    }
    let bad = classify_probe(
        "https://down.example".to_string(),
        5000,
        Some("connection refused".to_string()),
    );
    assert_eq!(bad.target, "https://down.example");
    match bad.outcome {
        Outcome::Failure { latency_ms, description } => {
            assert_eq!(latency_ms, 5000);
            assert_eq!(description, "connection refused");
        },
        Outcome::Success { .. } => panic!("expected failure"),
    }
}
