use miradors::aggregate::aggregate;
use miradors::check::{CheckResult, HealthChecker, Outcome};
use miradors::config::NotificationConfig;
use miradors::notify::{build_body, compose_notification, interpret_send_outcome, subject_line, DispatchError};

fn notification_config() -> NotificationConfig {
    NotificationConfig {
        sender_email: "monitor@example.com".to_string(),
        sender_displayed_name: "Monitor".to_string(),
        domain: "mg.example.com".to_string(),
        api_key: "test-api-key".to_string(),
        recipient_email: "admin@example.com".to_string(),
    }
}

#[test]
fn subject_is_fixed() {
    assert_eq!(subject_line(), "Miradors: Some monitored websites are not reachable!");
}

#[test]
fn body_joins_targets_with_row_separator() {
    let results = vec![
        CheckResult {
            target: "https://a.example".to_string(),
            outcome: Outcome::Failure { latency_ms: 1, description: "e1".to_string() },
        },
        CheckResult {
            target: "https://b.example".to_string(),
            outcome: Outcome::Failure { latency_ms: 2, description: "e2".to_string() },
        },
    ];
    let fs = aggregate(&results);
    assert_eq!(build_body(&fs), "https://a.example<br/>https://b.example");
}

#[test]
fn one_unreachable_target_yields_one_alert() {
    // targets: ok.example succeeds after 120 ms, down.example fails after
    // 5000 ms with "connection refused".
    let results = vec![
        CheckResult {
            target: "https://ok.example".to_string(),
            outcome: Outcome::Success { latency_ms: 120 },
        },
        CheckResult {
            target: "https://down.example".to_string(),
            outcome: Outcome::Failure { latency_ms: 5000, description: "connection refused".to_string() },
        },
    ];
    let fs = aggregate(&results);
    assert_eq!(fs.len(), 1);
    assert_eq!(
        fs.get(&"https://down.example".to_string()),
        Some(&"connection refused".to_string())
    );
    assert!(!fs.is_empty());
    let n = compose_notification(&fs, &notification_config());
    assert_eq!(n.subject, "Miradors: Some monitored websites are not reachable!");
    assert_eq!(n.body, "https://down.example");
    assert_eq!(n.recipient, "admin@example.com");
}

#[test]
fn healthy_cycle_composes_nothing() {
    let results = vec![
        CheckResult {
            target: "https://ok.example".to_string(),
            outcome: Outcome::Success { latency_ms: 10 },
        },
    ];
    let fs = aggregate(&results);
    // The cycle only dispatches when the failure set is non-empty; a healthy
    // cycle never reaches composition.
    assert!(fs.is_empty());
    assert_eq!(build_body(&fs), "");
}

#[test]
fn send_success_passes_through_and_failure_keeps_its_text() {
    assert!(interpret_send_outcome(Ok(())).is_ok());
    match interpret_send_outcome(Err("provider said no".to_string())) {
        Err(DispatchError::SendFailed { message }) => assert_eq!(message, "provider said no"),
        Ok(()) => panic!("a failed send must be reported"),
    }
}

#[test]
fn check_reports_one_result_per_target_in_order() {
    let checker = HealthChecker::new().expect("the probing client must build");
    let targets = vec![
        "http://127.0.0.1:1".to_string(),
        "not a url".to_string(),
    ];
    let results = checker.check(&targets);
    assert_eq!(results.len(), 2);
    assert_eq!(results[0].target, "http://127.0.0.1:1");
    assert_eq!(results[1].target, "not a url");
    // Neither probe can reach anything, so both must classify as failures
    // with a non-empty transport error.
    for r in &results {
        match &r.outcome {
            Outcome::Failure { description, .. } => assert!(!description.is_empty()),
            Outcome::Success { .. } => panic!("these targets cannot be reachable"),
        }
    }
}
