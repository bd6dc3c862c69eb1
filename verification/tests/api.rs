use saycmd::api::{
    assistant_content, chat_endpoints, check_reply_status, compact_error, system_prompt,
    EXPLAIN_PROMPT, SYSTEM_PROMPT,
};
use saycmd::config::{Config, Environment, FileConfig};
use saycmd::error::SaycmdError;
use saycmd::output::parse_output;

#[test]
fn error_text_is_bounded_and_single_line() {
    let text = "a\n".repeat(600);
    let compact = compact_error(&text);
    assert!(!compact.contains('\n'));
    assert!(compact.chars().count() <= 513);
}

#[test]
fn compact_error_keeps_short_text_and_marks_a_cut() {
    assert_eq!(compact_error("  bad \t request\n\n please "), "bad request please");
    let compact = compact_error(&"a ".repeat(600));
    assert_eq!(compact.chars().count(), 513);
    assert!(compact.ends_with('…'));
    assert_eq!(compact_error(&"b".repeat(512)), "b".repeat(512));
}

#[test]
fn prompt_examples_read_as_command_objects() {
    for (explain, prompt) in [(false, system_prompt(false)), (true, system_prompt(true))] {
        let example = prompt
            .lines()
            .find_map(|line| line.strip_prefix("Example JSON output: "))
            .unwrap();
        let parsed = parse_output(example, explain).unwrap();
        assert_eq!(parsed.command, "ls -la");
        assert_eq!(parsed.explanation.is_some(), explain);
    }
    assert_eq!(system_prompt(true), EXPLAIN_PROMPT);
    assert_eq!(system_prompt(false), SYSTEM_PROMPT);
    assert!(EXPLAIN_PROMPT.contains("Explain combined flags individually"));
    assert!(!SYSTEM_PROMPT.contains("Explain combined flags individually"));
}

fn config(base_url: &str, api_key: Option<&str>, api_key_env: &str) -> Config {
    let file = FileConfig {
        base_url: Some(base_url.to_string()),
        model: Some("test-model".to_string()),
        api_key_env: Some(api_key_env.to_string()),
        ..FileConfig::default()
    };
    let mut vars = Vec::new();
    if let Some(key) = api_key {
        vars.push(("SAYCMD_API_KEY".to_string(), key.to_string()));
    }
    Config::from_file_and_env(file, &Environment { vars }).unwrap()
}

#[test]
fn endpoints_lie_under_the_base_url() {
    let endpoints = chat_endpoints(&config("http://127.0.0.1:8080/v1/", Some("k"), "KEY")).unwrap();
    assert_eq!(endpoints.chat, "http://127.0.0.1:8080/v1/chat/completions");
    assert_eq!(endpoints.models, "http://127.0.0.1:8080/v1/models");
    let endpoints = chat_endpoints(&config("https://api.openai.com/v1", None, "")).unwrap();
    assert_eq!(endpoints.chat, "https://api.openai.com/v1/chat/completions");
}

#[test]
fn endpoints_need_a_valid_base_url_and_a_configured_key() {
    match chat_endpoints(&config("not a url", None, "")) {
        Err(SaycmdError::InvalidBaseUrl(url)) => assert_eq!(url, "not a url"),
        other => panic!("unexpected {:?}", other),
    }
    match chat_endpoints(&config("https://example.com", None, "TEST_KEY")) {
        Err(SaycmdError::MissingApiKey(name)) => assert_eq!(name, "TEST_KEY"),
        other => panic!("unexpected {:?}", other),
    }
}

#[test]
fn reply_status_outside_two_hundreds_is_an_error() {
    assert!(check_reply_status(200, "ok").is_ok());
    assert!(check_reply_status(299, "ok").is_ok());
    match check_reply_status(401, "{\n  \"error\": \"bad key\"\n}") {
        Err(SaycmdError::ApiStatus { status, message }) => {
            assert_eq!(status, 401);
            assert_eq!(message, "{ \"error\": \"bad key\" }");
        }
        other => panic!("unexpected {:?}", other),
    }
    assert!(check_reply_status(199, "").is_err());
    assert!(check_reply_status(300, "").is_err());
}

#[test]
fn assistant_content_is_the_first_choice() {
    assert_eq!(
        assistant_content(Ok(vec![Some("a".to_string()), Some("b".to_string())])).unwrap(),
        "a"
    );
    assert!(matches!(assistant_content(Ok(vec![])), Err(SaycmdError::MissingAssistantContent)));
    assert!(matches!(
        assistant_content(Ok(vec![None, Some("b".to_string())])),
        Err(SaycmdError::MissingAssistantContent)
    ));
    assert!(matches!(
        assistant_content(Err("expected value".to_string())),
        Err(SaycmdError::InvalidModelOutput(m)) if m == "expected value"
    ));
}
