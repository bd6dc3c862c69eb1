use std::time::Duration;

use saycmd::config::{
    load_prefix, parse_bool, parse_u64, Config, Environment, FileConfig, DEFAULT_BASE_URL,
    DEFAULT_PREFIX,
};
use saycmd::error::SaycmdError;

fn env(pairs: &[(&str, &str)]) -> Environment {
    Environment {
        vars: pairs.iter().map(|(k, v)| (k.to_string(), v.to_string())).collect(),
    }
}

#[test]
fn defaults_are_stable() {
    let file = FileConfig {
        model: Some("test-model".into()),
        api_key_env: Some(String::new()),
        ..FileConfig::default()
    };
    let config = Config::from_file_and_env(file, &env(&[])).unwrap();
    assert_eq!(config.base_url, DEFAULT_BASE_URL);
    assert_eq!(config.model, "test-model");
    assert_eq!(config.timeout, Duration::from_secs(30));
}

#[test]
fn environment_overrides_file() {
    let file = FileConfig {
        model: Some("file-model".into()),
        base_url: Some("http://file/v1".into()),
        timeout_seconds: Some(5),
        explain: Some(false),
        ..FileConfig::default()
    };
    let config = Config::from_file_and_env(
        file,
        &env(&[
            ("SAYCMD_MODEL", "env-model"),
            ("SAYCMD_BASE_URL", "http://env/v1///"),
            ("SAYCMD_TIMEOUT_SECONDS", "+12"),
            ("SAYCMD_EXPLAIN", "true"),
            ("OPENAI_API_KEY", "secret"),
        ]),
    )
    .unwrap();
    assert_eq!(config.model, "env-model");
    assert_eq!(config.base_url, "http://env/v1");
    assert_eq!(config.timeout, Duration::from_secs(12));
    assert!(config.explain);
    assert_eq!(config.api_key_env, "OPENAI_API_KEY");
    assert_eq!(config.api_key.as_deref(), Some("secret"));
    assert!(config.require_api_key_if_configured().is_ok());
}

#[test]
fn blank_environment_values_are_ignored() {
    let file = FileConfig { model: Some("file-model".into()), timeout_seconds: Some(7), ..FileConfig::default() };
    let config = Config::from_file_and_env(
        file,
        &env(&[("SAYCMD_MODEL", "  "), ("SAYCMD_TIMEOUT_SECONDS", "")]),
    )
    .unwrap();
    assert_eq!(config.model, "file-model");
    assert_eq!(config.timeout, Duration::from_secs(7));
    assert!(config.api_key.is_none());
    match config.require_api_key_if_configured() {
        Err(SaycmdError::MissingApiKey(name)) => assert_eq!(name, "OPENAI_API_KEY"),
        other => panic!("unexpected {:?}", other),
    }
}

#[test]
fn api_key_comes_from_the_named_variable_or_the_direct_override() {
    let file = FileConfig { model: Some("m".into()), api_key_env: Some("MY_KEY".into()), ..FileConfig::default() };
    let config = Config::from_file_and_env(file, &env(&[("MY_KEY", "k1")])).unwrap();
    assert_eq!(config.api_key.as_deref(), Some("k1"));
    let file = FileConfig { model: Some("m".into()), api_key_env: Some("MY_KEY".into()), ..FileConfig::default() };
    let config =
        Config::from_file_and_env(file, &env(&[("MY_KEY", "k1"), ("SAYCMD_API_KEY", "k2")])).unwrap();
    assert_eq!(config.api_key.as_deref(), Some("k2"));
}

#[test]
fn config_errors_come_in_order() {
    assert!(matches!(
        Config::from_file_and_env(FileConfig::default(), &env(&[("SAYCMD_TIMEOUT_SECONDS", "x")])),
        Err(SaycmdError::MissingModel)
    ));
    let with_model = || FileConfig { model: Some("m".into()), ..FileConfig::default() };
    match Config::from_file_and_env(
        with_model(),
        &env(&[("SAYCMD_TIMEOUT_SECONDS", " 30"), ("SAYCMD_EXPLAIN", "yes")]),
    ) {
        Err(SaycmdError::InvalidTimeout(raw)) => assert_eq!(raw, " 30"),
        other => panic!("unexpected {:?}", other),
    }
    match Config::from_file_and_env(with_model(), &env(&[("SAYCMD_EXPLAIN", "yes")])) {
        Err(SaycmdError::InvalidExplain(raw)) => assert_eq!(raw, "yes"),
        other => panic!("unexpected {:?}", other),
    }
    let read_error = SaycmdError::ConfigRead { path: "p".into(), message: "denied".into() };
    assert!(matches!(
        Config::load(Err(read_error), &env(&[])),
        Err(SaycmdError::ConfigRead { .. })
    ));
}

#[test]
fn numbers_and_booleans_read_like_std() {
    for text in ["0", "30", "+7", "18446744073709551615", "", "+", "-1", " 1", "1 ", "18446744073709551616", "1a", "007"] {
        assert_eq!(parse_u64(text), text.parse::<u64>().ok(), "{text:?}");
    }
    for text in ["true", "false", "True", "", " true", "1"] {
        assert_eq!(parse_bool(text), text.parse::<bool>().ok(), "{text:?}");
    }
}

#[test]
fn prefix_falls_back_to_the_default_when_blank() {
    let file = |p: Option<&str>| Ok(FileConfig { prefix: p.map(String::from), ..FileConfig::default() });
    assert_eq!(load_prefix(file(None), &env(&[])).unwrap(), DEFAULT_PREFIX);
    assert_eq!(DEFAULT_PREFIX, "？");
    assert_eq!(load_prefix(file(Some("??")), &env(&[])).unwrap(), "??");
    assert_eq!(load_prefix(file(Some("")), &env(&[])).unwrap(), "？");
    assert_eq!(load_prefix(file(Some("   ")), &env(&[])).unwrap(), "？");
    assert_eq!(load_prefix(file(Some("?")), &env(&[("SAYCMD_PREFIX", "！")])).unwrap(), "！");
    assert_eq!(load_prefix(file(Some("?")), &env(&[("SAYCMD_PREFIX", "")])).unwrap(), "?");
    let parse_error = SaycmdError::ConfigParse { path: "p".into(), message: "bad".into() };
    assert!(load_prefix(Err(parse_error), &env(&[])).is_err());
}
