use saycmd::api::PreviousCommand;
use saycmd::context::{git_context, git_output_text, git_root, ProcessOutput};
use saycmd::error::{http_error_text, SaycmdError, TIMEOUT_MESSAGE};
use saycmd::output::CommandOutput;
use saycmd::{on_model_reply, on_syntax_checked, start_translation, TranslationStep, MAX_PROMPT_BYTES};

fn refused(step: TranslationStep) -> SaycmdError {
    match step {
        TranslationStep::Done(Err(e)) => e,
        other => panic!("expected a refusal, got {:?}", other),
    }
}

#[test]
fn request_is_trimmed_before_it_is_sent() {
    match start_translation("zsh", "  list files \n", None) {
        TranslationStep::AskModel { prompt } => assert_eq!(prompt, "list files"),
        other => panic!("unexpected {:?}", other),
    }
}

#[test]
fn bad_requests_are_refused_before_the_model_is_asked() {
    assert!(matches!(refused(start_translation("zsh", " \t ", None)), SaycmdError::EmptyPrompt));
    let long = "x".repeat(MAX_PROMPT_BYTES + 1);
    assert!(matches!(
        refused(start_translation("zsh", &long, None)),
        SaycmdError::PromptTooLarge(n) if n == MAX_PROMPT_BYTES
    ));
    assert!(matches!(
        start_translation("zsh", &"x".repeat(MAX_PROMPT_BYTES), None),
        TranslationStep::AskModel { .. }
    ));
    assert!(matches!(
        refused(start_translation("bash", "ls", None)),
        SaycmdError::UnsupportedShell(s) if s == "bash"
    ));
}

#[test]
fn follow_up_context_is_checked() {
    let previous = |command: &str, requests: Vec<String>| PreviousCommand { command: command.to_string(), requests };
    assert!(matches!(
        refused(start_translation("zsh", "again", Some(&previous("  ", vec![])))),
        SaycmdError::InvalidModelOutput(m) if m == "previous command is empty"
    ));
    assert!(matches!(
        refused(start_translation("zsh", "again", Some(&previous("ls\0", vec![])))),
        SaycmdError::NulByte
    ));
    assert!(matches!(
        refused(start_translation("zsh", "again", Some(&previous(&"a".repeat(32769), vec![])))),
        SaycmdError::CommandTooLarge(32768)
    ));
    let nine = (0..9).map(|i| format!("r{i}")).collect();
    assert!(matches!(
        refused(start_translation("zsh", "again", Some(&previous("ls", nine)))),
        SaycmdError::PromptTooLarge(65536)
    ));
    let big = vec!["x".repeat(MAX_PROMPT_BYTES + 1)];
    assert!(matches!(
        refused(start_translation("zsh", "again", Some(&previous("ls", big)))),
        SaycmdError::PromptTooLarge(65536)
    ));
    let eight = (0..8).map(|i| format!("r{i}")).collect();
    assert!(matches!(
        start_translation("zsh", "again", Some(&previous("ls -t", eight))),
        TranslationStep::AskModel { .. }
    ));
}

#[test]
fn reply_goes_to_the_syntax_check_and_then_ends() {
    let step = on_model_reply(Ok(r#"{"command":" pwd "}"#.to_string()), false);
    let output = match step {
        TranslationStep::CheckSyntax { output } => output,
        other => panic!("unexpected {:?}", other),
    };
    assert_eq!(output.command, "pwd");
    match on_syntax_checked(output, Ok(())) {
        TranslationStep::Done(Ok(o)) => assert_eq!(o.command, "pwd"),
        other => panic!("unexpected {:?}", other),
    }
    let output = CommandOutput { command: "if then".to_string(), explanation: None };
    let failure = SaycmdError::InvalidSyntax { shell: "zsh".into(), message: "parse error".into() };
    assert!(matches!(refused(on_syntax_checked(output, Err(failure))), SaycmdError::InvalidSyntax { .. }));
    assert!(matches!(
        refused(on_model_reply(Err(SaycmdError::MissingAssistantContent), false)),
        SaycmdError::MissingAssistantContent
    ));
    assert!(matches!(
        refused(on_model_reply(Ok("pwd".to_string()), false)),
        SaycmdError::InvalidModelOutput(_)
    ));
}

#[test]
fn git_output_is_trimmed_utf8_of_a_successful_run() {
    let ok = |text: &[u8]| Some(ProcessOutput { success: true, stdout: text.to_vec() });
    assert_eq!(git_output_text(ok(b"/repo\n")).as_deref(), Some("/repo"));
    assert_eq!(git_output_text(ok(b"\xff")), None);
    assert_eq!(git_output_text(Some(ProcessOutput { success: false, stdout: b"/repo".to_vec() })), None);
    assert_eq!(git_output_text(None), None);
}

#[test]
fn git_context_names_branch_and_changes() {
    let status = |out: &[u8]| Some(ProcessOutput { success: true, stdout: out.to_vec() });
    let git = git_context("/repo".into(), Some("main".into()), status(b" M file\n"));
    assert_eq!(git.root, "/repo");
    assert_eq!(git.branch.as_deref(), Some("main"));
    assert!(git.dirty);
    let git = git_context("/repo".into(), Some(String::new()), status(b""));
    assert!(git.branch.is_none());
    assert!(!git.dirty);
    let failed = Some(ProcessOutput { success: false, stdout: b"x".to_vec() });
    assert!(!git_context("/repo".into(), None, failed).dirty);
    assert!(!git_context("/repo".into(), None, None).dirty);
}

#[test]
fn http_failures_name_their_causes_or_the_timeout() {
    assert_eq!(http_error_text(true, &vec!["anything".to_string()]), TIMEOUT_MESSAGE);
    assert!(TIMEOUT_MESSAGE.contains("timed out") && TIMEOUT_MESSAGE.contains("timeout_seconds"));
    let chain = vec![
        "error decoding response body".to_string(),
        "expected value\n at line 1".to_string(),
    ];
    assert_eq!(
        http_error_text(false, &chain),
        "error decoding response body: expected value at line 1"
    );
    assert_eq!(http_error_text(false, &vec![]), "");
}

#[test]
fn non_repo_root_query_means_no_git_context() {
    let failed = Some(ProcessOutput { success: false, stdout: b"".to_vec() });
    assert_eq!(git_root(failed), None);
    assert_eq!(git_root(None), None);
    assert_eq!(git_root(Some(ProcessOutput { success: true, stdout: b"\xfe\xff".to_vec() })), None);
    assert_eq!(
        git_root(Some(ProcessOutput { success: true, stdout: b" /home/repo \n".to_vec() })).as_deref(),
        Some("/home/repo")
    );
}
