use saycmd::error::SaycmdError;
use saycmd::output::{
    output_from_command, parse_command, parse_output, read_command_list, read_command_object,
    syntax_verdict, CommandOutput,
};
use saycmd::MAX_COMMAND_BYTES;

#[test]
fn parses_multiline_command() {
    let command = parse_command(r#"{"command":"printf 'one\\n'\nprintf 'two\\n'"}"#).unwrap();
    assert_eq!(command.lines().count(), 2);
}

#[test]
fn tolerates_json_code_fence_only() {
    let command = parse_command("```json\n{\"command\":\"pwd\"}\n```").unwrap();
    assert_eq!(command, "pwd");
}

#[test]
fn rejects_prose_and_extra_fields() {
    assert!(parse_command("Use this: pwd").is_err());
    assert!(parse_command(r#"{"command":"pwd","why":"requested"}"#).is_err());
}

#[test]
fn explanation_is_separate_optional_and_strips_control_characters() {
    let content = r#"{"command":"ls -la","explanation":"-l: long\n-a: all\u0000\u001b"}"#;
    let result = parse_output(content, true).unwrap();
    assert_eq!(result.command, "ls -la");
    assert_eq!(result.explanation.as_deref(), Some("-l: long\n-a: all"));
    assert!(parse_output(content, false).unwrap().explanation.is_none());
    assert!(parse_output(r#"{"command":"ls"}"#, true).is_err());
    assert!(parse_output(r#"{"command":"ls","explanation":" "}"#, true).is_err());
}

fn invalid_output_message(result: Result<CommandOutput, SaycmdError>) -> String {
    match result {
        Err(SaycmdError::InvalidModelOutput(message)) => message,
        other => panic!("expected an invalid output, got {:?}", other),
    }
}

#[test]
fn command_is_trimmed_and_explanation_ignored_unless_asked() {
    let output = parse_output("  {\"command\":\"  ls -t \\n\",\"explanation\":\"x\"}  ", false).unwrap();
    assert_eq!(output.command, "ls -t");
    assert!(output.explanation.is_none());
}

#[test]
fn fence_with_other_language_is_not_stripped() {
    assert!(parse_command("```sh\n{\"command\":\"pwd\"}\n```").is_err());
    assert_eq!(parse_command("```\n{\"command\":\"pwd\"}\n```").unwrap(), "pwd");
    assert_eq!(parse_command("``` json \n{\"command\":\"pwd\"}\n```").unwrap(), "pwd");
    assert!(parse_command("```json {\"command\":\"pwd\"}```").is_err());
}

#[test]
fn each_output_error_has_its_input() {
    assert_eq!(
        invalid_output_message(parse_output(r#"{"command":"   "}"#, false)),
        "command field is empty"
    );
    assert_eq!(
        invalid_output_message(parse_output(r#"{"explanation":"x"}"#, false)),
        "missing field `command`"
    );
    assert_eq!(
        invalid_output_message(parse_output(r#"{"command":null}"#, false)),
        "invalid type: null, expected a string"
    );
    assert_eq!(
        invalid_output_message(parse_output(r#"{"command":"pwd","why":"x"}"#, false)),
        "unknown field `why`, expected `command` or `explanation`"
    );
    assert_eq!(
        invalid_output_message(parse_output(r#"{"command":"ls"}"#, true)),
        "explanation field is missing"
    );
    assert_eq!(
        invalid_output_message(parse_output(r#"{"command":"ls","explanation":"\u0007 \t"}"#, true)),
        "explanation field is empty"
    );
    assert!(matches!(
        parse_output(r#"{"command":"echo \u0000"}"#, false),
        Err(SaycmdError::NulByte)
    ));
    let long = format!("{{\"command\":\"{}\"}}", "a".repeat(MAX_COMMAND_BYTES + 1));
    assert!(matches!(
        parse_output(&long, false),
        Err(SaycmdError::CommandTooLarge(n)) if n == MAX_COMMAND_BYTES
    ));
    let fits = format!("{{\"command\":\"{}\"}}", "a".repeat(MAX_COMMAND_BYTES));
    assert_eq!(parse_output(&fits, false).unwrap().command.len(), MAX_COMMAND_BYTES);
}

#[test]
fn command_limit_counts_utf8_bytes() {
    let wide = "é".repeat(MAX_COMMAND_BYTES / 2 + 1);
    let content = format!("{{\"command\":\"{}\"}}", wide);
    assert!(matches!(parse_output(&content, false), Err(SaycmdError::CommandTooLarge(_))));
}

#[test]
fn explanation_is_cut_to_four_thousand_characters() {
    let content = format!(
        "{{\"command\":\"ls\",\"explanation\":\"{}\"}}",
        "é".repeat(4100)
    );
    let output = parse_output(&content, true).unwrap();
    assert_eq!(output.explanation.unwrap().chars().count(), 4000);
}

#[test]
fn decoded_fields_are_read_as_a_command_object() {
    let fields = vec![
        ("command".to_string(), Some(" pwd ".to_string())),
        ("explanation".to_string(), None),
    ];
    let output = output_from_command(read_command_object(&fields), false).unwrap();
    assert_eq!(output.command, "pwd");
    let fields = vec![("command".to_string(), Some("pwd".to_string())), ("explanation".to_string(), None)];
    assert_eq!(
        invalid_output_message(output_from_command(read_command_object(&fields), true)),
        "explanation field is missing"
    );
    assert_eq!(
        invalid_output_message(output_from_command(Err("bad json".to_string()), false)),
        "bad json"
    );
}

#[test]
fn decoded_items_are_read_as_a_command_object() {
    let items = vec![Some("ls".to_string()), Some("list".to_string())];
    assert_eq!(read_command_list(&items).unwrap(), ("ls".to_string(), Some("list".to_string())));
    assert_eq!(read_command_list(&vec![Some("ls".to_string())]).unwrap(), ("ls".to_string(), None));
    assert_eq!(
        read_command_list(&vec![]).unwrap_err(),
        "invalid length 0, expected struct CommandOutput with 2 elements"
    );
    assert_eq!(
        read_command_list(&vec![None]).unwrap_err(),
        "invalid type: null, expected a string"
    );
    let three = vec![Some("a".to_string()), None, Some("c".to_string())];
    assert_eq!(read_command_list(&three).unwrap_err(), "trailing characters");
}

#[test]
fn array_replies_read_as_command_objects() {
    assert_eq!(parse_command(r#"["pwd"]"#).unwrap(), "pwd");
    let output = parse_output(r#" ["ls -la", "-l: long"] "#, true).unwrap();
    assert_eq!(output.command, "ls -la");
    assert_eq!(output.explanation.as_deref(), Some("-l: long"));
    assert_eq!(parse_command("```json\n[\"pwd\", null]\n```").unwrap(), "pwd");
    assert!(parse_command("[]").is_err());
    assert!(parse_command("[null]").is_err());
    assert!(parse_command(r#"["a", "b", "c"]"#).is_err());
    assert!(parse_command("[1]").is_err());
}

#[test]
fn decoder_message_is_kept() {
    let message = invalid_output_message(parse_output("\"pwd\"", false));
    assert!(message.contains("expected a map"), "{message}");
    let message = invalid_output_message(parse_output("[1, 2", false));
    assert!(message.contains("expected a string"), "{message}");
    let message = invalid_output_message(parse_output("{\"command\":\"ls\"", false));
    assert!(message.contains("EOF"), "{message}");
}

#[test]
fn zle_text_separates_command_and_explanation_with_nul() {
    let output = CommandOutput { command: "ls -la".to_string(), explanation: Some("-l: long".to_string()) };
    assert_eq!(output.zle_text(), "ls -la\0-l: long");
    let output = CommandOutput { command: "pwd".to_string(), explanation: None };
    assert_eq!(output.zle_text(), "pwd\0");
}

#[test]
fn syntax_verdict_reports_the_shell_message_on_one_line() {
    assert!(syntax_verdict("zsh", true, b"ignored").is_ok());
    match syntax_verdict("zsh", false, b"zsh:1: parse error\n  near `then'\n") {
        Err(SaycmdError::InvalidSyntax { shell, message }) => {
            assert_eq!(shell, "zsh");
            assert_eq!(message, "zsh:1: parse error near `then'");
        }
        other => panic!("unexpected {:?}", other),
    }
    match syntax_verdict("zsh", false, b"bad \xff byte") {
        Err(SaycmdError::InvalidSyntax { message, .. }) => assert_eq!(message, "bad \u{fffd} byte"),
        other => panic!("unexpected {:?}", other),
    }
}

#[test]
fn fenced_reply_reads_as_the_reply() {
    let reply = r#" {"command":"ls -la","explanation":"-l: long"} "#;
    for fenced in [format!("```json\n{reply}\n```"), format!("```\n{reply}\n```")] {
        let plain = parse_output(reply, true).unwrap();
        let inside = parse_output(&fenced, true).unwrap();
        assert_eq!(inside.command, plain.command);
        assert_eq!(inside.explanation, plain.explanation);
    }
}

#[test]
fn zle_text_splits_at_the_first_nul() {
    let output = parse_output(r#"{"command":"ls","explanation":"a\nb"}"#, true).unwrap();
    let text = output.zle_text();
    let (command, explanation) = text.split_once('\0').unwrap();
    assert_eq!(command, "ls");
    assert_eq!(explanation, "a\nb");
}
