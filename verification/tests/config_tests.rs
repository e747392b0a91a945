use miradors::config::{Config, ConfigError, ConfigField, ConfigSource, NotificationConfig, RawConfig};
use miradors::config::{parse_u64, resolve_source, split_targets};
use miradors::cycle::{decide_cycle, CycleDecision};

fn notification() -> NotificationConfig {
    NotificationConfig {
        sender_email: "monitor@example.com".to_string(),
        sender_displayed_name: "Monitor".to_string(),
        domain: "mg.example.com".to_string(),
        api_key: "test-api-key".to_string(),
        recipient_email: "admin@example.com".to_string(),
    }
}

fn raw(websites: &str, interval: &str) -> RawConfig {
    RawConfig {
        websites_to_check: Some(websites.to_string()),
        check_interval_in_seconds: Some(interval.to_string()),
        sender_email: Some("monitor@example.com".to_string()),
        sender_displayed_name: Some("Monitor".to_string()),
        domain: Some("mg.example.com".to_string()),
        api_key: Some("test-api-key".to_string()),
        recipient_email: Some("admin@example.com".to_string()),
    }
}

#[test]
fn split_targets_on_spaces() {
    let v = split_targets("https://a.example https://b.example");
    assert_eq!(v, vec!["https://a.example".to_string(), "https://b.example".to_string()]);
}

#[test]
fn split_targets_keeps_empty_segments() {
    assert_eq!(split_targets(""), vec!["".to_string()]);
    assert_eq!(split_targets("a  b"), vec!["a".to_string(), "".to_string(), "b".to_string()]);
    assert_eq!(split_targets("a "), vec!["a".to_string(), "".to_string()]);
    assert_eq!(split_targets(" a"), vec!["".to_string(), "a".to_string()]);
}

#[test]
fn parse_u64_accepts_decimals() {
    assert_eq!(parse_u64("120"), Some(120));
    assert_eq!(parse_u64("0"), Some(0));
    assert_eq!(parse_u64("+7"), Some(7));
    assert_eq!(parse_u64("18446744073709551615"), Some(u64::MAX));
}

#[test]
fn parse_u64_rejects_bad_numerals() {
    assert_eq!(parse_u64(""), None);
    assert_eq!(parse_u64("+"), None);
    assert_eq!(parse_u64("12x"), None);
    assert_eq!(parse_u64("-3"), None);
    assert_eq!(parse_u64(" 12"), None);
    assert_eq!(parse_u64("18446744073709551616"), None);
    assert_eq!(parse_u64("99999999999999999999999"), None);
}

#[test]
fn from_parts_builds_validated_snapshot() {
    let config = Config::from_parts("https://a.example https://b.example", 300, notification())
        .expect("valid configuration");
    assert_eq!(
        config.targets,
        vec!["https://a.example".to_string(), "https://b.example".to_string()]
    );
    assert_eq!(config.check_interval_in_seconds, 300);
    assert_eq!(config.notification.recipient_email, "admin@example.com");
}

#[test]
fn from_parts_rejects_empty_websites() {
    let r = Config::from_parts("", 300, notification());
    assert_eq!(r.err(), Some(ConfigError::EmptyField(ConfigField::WebsitesToCheck)));
}

#[test]
fn from_parts_rejects_zero_interval() {
    let r = Config::from_parts("https://a.example", 0, notification());
    assert_eq!(r.err(), Some(ConfigError::InvalidInterval));
}

#[test]
fn from_parts_rejects_empty_notification_fields() {
    let mut n = notification();
    n.api_key = String::new();
    let r = Config::from_parts("https://a.example", 300, n);
    assert_eq!(r.err(), Some(ConfigError::EmptyField(ConfigField::ApiKey)));

    let mut n = notification();
    n.sender_email = String::new();
    let r = Config::from_parts("https://a.example", 300, n);
    assert_eq!(r.err(), Some(ConfigError::EmptyField(ConfigField::SenderEmail)));
}

#[test]
fn from_env_values_builds_snapshot() {
    let config = Config::from_env_values(raw("https://a.example", "60")).expect("valid");
    assert_eq!(config.targets, vec!["https://a.example".to_string()]);
    assert_eq!(config.check_interval_in_seconds, 60);
    assert_eq!(config.notification.sender_displayed_name, "Monitor");
}

#[test]
fn missing_api_key_is_a_config_error() {
    let mut r = raw("https://a.example", "60");
    r.api_key = None;
    let loaded = Config::from_env_values(r);
    assert_eq!(loaded.err(), Some(ConfigError::MissingField(ConfigField::ApiKey)));
}

#[test]
fn missing_websites_is_a_config_error() {
    let mut r = raw("https://a.example", "60");
    r.websites_to_check = None;
    let loaded = Config::from_env_values(r);
    assert_eq!(loaded.err(), Some(ConfigError::MissingField(ConfigField::WebsitesToCheck)));
}

#[test]
fn non_numeric_interval_is_a_config_error() {
    let loaded = Config::from_env_values(raw("https://a.example", "soon"));
    assert_eq!(loaded.err(), Some(ConfigError::InvalidInterval));
}

#[test]
fn reload_reflects_changed_source() {
    let first = Config::from_env_values(raw("https://old.example", "60")).expect("valid");
    assert_eq!(first.targets, vec!["https://old.example".to_string()]);
    assert_eq!(first.check_interval_in_seconds, 60);

    let second = Config::from_env_values(raw("https://new.example https://extra.example", "90"))
        .expect("valid");
    assert_eq!(
        second.targets,
        vec!["https://new.example".to_string(), "https://extra.example".to_string()]
    );
    assert_eq!(second.check_interval_in_seconds, 90);
}

#[test]
fn file_indicator_wins_over_env() {
    match resolve_source(Some("/etc/monitor.json".to_string())) {
        ConfigSource::FromFile(path) => assert_eq!(path, "/etc/monitor.json"),
        ConfigSource::FromEnv => panic!("a set indicator must select the file"),
    }
    match resolve_source(None) {
        ConfigSource::FromEnv => {},
        ConfigSource::FromFile(_) => panic!("an unset indicator must select the environment"),
    }
}

#[test]
fn config_error_stops_the_scheduler() {
    let decision = decide_cycle(Err(ConfigError::MissingField(ConfigField::ApiKey)));
    match decision {
        CycleDecision::Stop(e) => {
            assert_eq!(e, ConfigError::MissingField(ConfigField::ApiKey));
        },
        CycleDecision::Run(_) => panic!("a config error must stop the loop"),
    }
}

#[test]
fn good_load_runs_a_cycle() {
    let config = Config::from_parts("https://a.example", 30, notification()).expect("valid");
    let decision = decide_cycle(Ok(config));
    match decision {
        CycleDecision::Run(c) => {
            assert_eq!(c.targets, vec!["https://a.example".to_string()]);
            assert_eq!(c.check_interval_in_seconds, 30);
        },
        CycleDecision::Stop(_) => panic!("a good load must run a cycle"),
    }
}
