use std::time::Duration;

use onshape_core::config::{
    default_check_interval, duration_fits, parse_duration_str, AppConfig, AuthConfig, CredentialStatus,
};

fn parsed(s: &str) -> Duration {
    Duration::from_secs(parse_duration_str(s).expect("should parse"))
}

#[test]
fn parse_duration_seconds_integer() {
    assert_eq!(parsed("300"), Duration::from_secs(300));
}

#[test]
fn parse_duration_seconds_suffix() {
    assert_eq!(parsed("300s"), Duration::from_secs(300));
}

#[test]
fn parse_duration_minutes() {
    assert_eq!(parsed("5m"), Duration::from_secs(300));
}

#[test]
fn parse_duration_hours() {
    assert_eq!(parsed("1h"), Duration::from_secs(3600));
}

#[test]
fn parse_duration_empty_fails() {
    assert!(parse_duration_str("").is_err());
}

#[test]
fn parse_duration_invalid_suffix_fails() {
    assert!(parse_duration_str("5x").is_err());
}

#[test]
fn parse_duration_not_a_number_fails() {
    assert!(parse_duration_str("abcm").is_err());
}

#[test]
fn parse_duration_trims_surrounding_white_space() {
    assert_eq!(parsed("  10m  "), Duration::from_secs(600));
}

#[test]
fn default_auth_config() {
    let config = AuthConfig::default();
    assert!(config.access_key.is_none());
    assert!(config.secret_key.is_none());
    assert_eq!(Duration::from_secs(config.check_interval), Duration::from_secs(300));
    assert_eq!(default_check_interval(), 300);
}

#[test]
fn credential_status_both_present() {
    let config = AuthConfig {
        access_key: Some("ak".to_string()),
        secret_key: Some("sk".to_string()),
        check_interval: 300,
    };
    assert_eq!(config.credential_status(), CredentialStatus::BothPresent);
}

#[test]
fn credential_status_none_present() {
    let config = AuthConfig::default();
    assert_eq!(config.credential_status(), CredentialStatus::NonePresent);
    let app = AppConfig::default();
    assert_eq!(app.auth.credential_status(), CredentialStatus::NonePresent);
}

#[test]
fn credential_status_missing_secret_key() {
    let config = AuthConfig {
        access_key: Some("ak".to_string()),
        secret_key: None,
        check_interval: 300,
    };
    assert_eq!(
        config.credential_status(),
        CredentialStatus::Partial { missing: "secret_key" }
    );
}

#[test]
fn credential_status_missing_access_key() {
    let config = AuthConfig {
        access_key: None,
        secret_key: Some("sk".to_string()),
        check_interval: 300,
    };
    assert_eq!(
        config.credential_status(),
        CredentialStatus::Partial { missing: "access_key" }
    );
}

#[test]
fn duration_fits_rejects_only_overflowing_values() {
    assert!(duration_fits("300"));
    assert!(duration_fits("5m"));
    assert!(duration_fits("abc"));
    assert!(duration_fits(""));
    assert!(duration_fits("5124095576030431h"));
    assert!(!duration_fits("5124095576030432h"));
    assert!(!duration_fits("18446744073709551615m"));
    assert!(duration_fits("18446744073709551615s"));
}
