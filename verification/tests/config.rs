use cli_assistant::config::{Config, ConfigError};

#[test]
fn test_config_defaults() {
    let config = Config::from_values(Some("test-key".to_string()), None, None).unwrap();
    assert_eq!(config.model(), "gpt-4o");
    assert_eq!(config.timeout(), 30);
}

#[test]
fn test_config_custom_values() {
    let config = Config::from_values(
        Some("test-key".to_string()),
        Some("gpt-3.5-turbo".to_string()),
        Some("60".to_string()),
    )
    .unwrap();
    assert_eq!(config.model(), "gpt-3.5-turbo");
    assert_eq!(config.timeout(), 60);
}

#[test]
fn test_config_missing_api_key() {
    let result = Config::from_values(None, None, None);
    assert!(result.is_err());
}

#[test]
fn config_keeps_the_key() {
    let config = Config::from_values(Some("sk-abc".to_string()), None, None).unwrap();
    assert_eq!(config.api_key(), "sk-abc");
    assert_eq!(
        Config::from_values(None, Some("m".into()), Some("5".into())).unwrap_err(),
        ConfigError::MissingApiKey
    );
    assert!(ConfigError::MissingApiKey.message().starts_with("OPENAI_API_KEY environment variable is not set."));
}

#[test]
fn config_timeout_is_read_as_u64() {
    let t = |s: &str| Config::from_values(Some("k".into()), None, Some(s.into())).unwrap().timeout();
    assert_eq!(t("+7"), 7);
    assert_eq!(t("007"), 7);
    assert_eq!(t("18446744073709551615"), u64::MAX);
    assert_eq!(t("18446744073709551616"), 30);
    assert_eq!(t(""), 30);
    assert_eq!(t("+"), 30);
    assert_eq!(t("-1"), 30);
    assert_eq!(t(" 5"), 30);
    assert_eq!(t("5s"), 30);
    for s in ["0", "12", "+99", "1x", "99999999999999999999"] {
        assert_eq!(t(s), s.parse::<u64>().unwrap_or(30), "{}", s);
    }
}
