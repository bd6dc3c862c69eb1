use saycmd::shell::{quote_for_shell, zsh_init, PREFIX_PLACEHOLDER, ZSH_INIT};

#[test]
fn init_is_idempotent_and_does_not_execute_generated_command() {
    assert!(ZSH_INIT.contains("widgets[saycmd-original-accept-line]"));
    assert!(ZSH_INIT.contains("BUFFER=\"$generated\""));
    assert!(!ZSH_INIT.contains("eval \"$generated\""));
}

#[test]
fn prefix_is_single_quoted_in_place_of_the_placeholder() {
    let script = zsh_init("?");
    assert!(script.contains("local prefix='?'\n"));
    assert!(!script.contains("__SAYCMD_PREFIX__"));
    assert_eq!(script, ZSH_INIT.replace("__SAYCMD_PREFIX__", "'?'"));
}

#[test]
fn quotes_inside_the_prefix_are_escaped() {
    let quoted: String = quote_for_shell("it's").into_iter().collect();
    assert_eq!(quoted, "'it'\\''s'");
    let script = zsh_init("'$(echo injected)`echo injected`*$HOME");
    assert!(script.contains("local prefix=''\\''$(echo injected)`echo injected`*$HOME'\n"));
    let quoted: String = quote_for_shell("").into_iter().collect();
    assert_eq!(quoted, "''");
}

#[test]
fn placeholder_stands_once_in_the_prefix_assignment() {
    assert_eq!(ZSH_INIT.matches(PREFIX_PLACEHOLDER).count(), 1);
    assert!(ZSH_INIT.contains("  local prefix=__SAYCMD_PREFIX__\n"));
    let (head, tail) = ZSH_INIT.split_once(PREFIX_PLACEHOLDER).unwrap();
    assert_eq!(zsh_init("？"), format!("{head}'？'{tail}"));
}

#[test]
fn progress_line_names_saycmd() {
    assert!(ZSH_INIT.contains("zle -R \"saycmd: ${frames[$frame]} generating"));
    assert!(!ZSH_INIT.contains("zle -R \"${frames"));
}

#[test]
fn follow_up_tag_is_two_question_marks_whatever_the_prefix() {
    assert!(ZSH_INIT.contains("local followup_prefix='??'\n"));
    assert!(!ZSH_INIT.contains("${prefix}${prefix}"));
    let script = zsh_init("？");
    assert!(script.contains("local followup_prefix='??'\n"));
}

#[test]
fn blank_run_time_prefix_keeps_the_configured_one() {
    assert!(ZSH_INIT.contains("if [[ \"${SAYCMD_PREFIX-}\" == *[![:space:]]* ]]; then\n    prefix=\"$SAYCMD_PREFIX\"\n  fi"));
    assert!(!ZSH_INIT.contains("${SAYCMD_PREFIX:-$prefix}"));
}
