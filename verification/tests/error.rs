use saycmd::config::{Config, Environment, FileConfig};
use saycmd::error::SaycmdError;

#[test]
fn missing_model_reads_clearly() {
    let error = Config::load(Ok(FileConfig::default()), &Environment { vars: vec![] }).unwrap_err();
    assert!(matches!(error, SaycmdError::MissingModel));
    assert!(error.message().contains("model is not configured"));
}

#[test]
fn every_error_has_its_message() {
    let s = |t: &str| t.to_string();
    let cases: Vec<(SaycmdError, &str)> = vec![
        (SaycmdError::EmptyPrompt, "prompt is empty"),
        (SaycmdError::PromptTooLarge(8192), "prompt exceeds the 8192-byte limit"),
        (SaycmdError::CommandTooLarge(0), "generated command exceeds the 0-byte limit"),
        (SaycmdError::UnsupportedShell(s("bash")), "unsupported shell: bash"),
        (
            SaycmdError::MissingModel,
            "model is not configured; set SAYCMD_MODEL or add model to the config file",
        ),
        (SaycmdError::MissingApiKey(s("KEY")), "API key environment variable KEY is not set"),
        (
            SaycmdError::ConfigRead { path: s("/c.toml"), message: s("denied") },
            "cannot read config /c.toml: denied",
        ),
        (
            SaycmdError::ConfigParse { path: s("/c.toml"), message: s("bad") },
            "cannot parse config /c.toml: bad",
        ),
        (SaycmdError::InvalidBaseUrl(s("x")), "invalid API base URL: x"),
        (SaycmdError::InvalidExplain(s("yes")), "invalid SAYCMD_EXPLAIN: yes; expected true or false"),
        (SaycmdError::InvalidTimeout(s("z")), "invalid timeout in SAYCMD_TIMEOUT_SECONDS: z"),
        (SaycmdError::Http(s("timed out")), "API request failed: timed out"),
        (
            SaycmdError::ApiStatus { status: 503, message: s("busy") },
            "API returned HTTP 503: busy",
        ),
        (SaycmdError::MissingAssistantContent, "API response did not contain assistant text"),
        (
            SaycmdError::InvalidModelOutput(s("oops")),
            "model response is not a valid command object: oops",
        ),
        (SaycmdError::NulByte, "generated command contains a NUL byte"),
        (
            SaycmdError::InvalidSyntax { shell: s("zsh"), message: s("parse error") },
            "generated zsh script has invalid syntax: parse error",
        ),
        (
            SaycmdError::Process { program: s("zsh"), message: s("not found") },
            "cannot run zsh: not found",
        ),
        (SaycmdError::InvalidCwd(s("/nope")), "current working directory is invalid: /nope"),
    ];
    for (error, expected) in cases {
        assert_eq!(error.message(), expected);
    }
}
