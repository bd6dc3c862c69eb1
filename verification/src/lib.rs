//! Turns a tagged natural-language request into a shell command that the
//! user reviews before running it.
//!
//! A translation runs as a sequence of steps: the request is checked, the
//! model is asked (with the working directory's context), its reply is read,
//! and the command's syntax is checked without running it. The library
//! decides each step; the caller performs the outside work between them.
use vstd::prelude::*;

pub mod api;
pub mod config;
pub mod context;
pub mod error;
pub mod output;
pub mod shell;
pub mod text;

use crate::api::PreviousCommand;
use crate::error::{ErrorView, Result, SaycmdError};
use crate::output::{parse_output, parse_output_spec, CommandOutput};
use crate::text::{chars_of, contains_char, string_of, trim, trim_chars, utf8_len, utf8_len_exceeds};

verus! {

/// Largest accepted request, in UTF-8 bytes.
pub const MAX_PROMPT_BYTES: usize = 8192;

/// Largest accepted command, in UTF-8 bytes.
pub const MAX_COMMAND_BYTES: usize = 32768;

/// Most requests a follow-up may carry: the original one and the latest revisions.
pub const MAX_PREVIOUS_REQUESTS: usize = 8;

/// The only shell that commands are generated for.
pub const SUPPORTED_SHELL: &'static str = "zsh";

/// Whether some request of a follow-up is longer than a prompt may be.
pub open spec fn has_oversized_request(requests: Seq<Seq<char>>) -> bool {
    exists|i: int| 0 <= i < requests.len() && utf8_len(#[trigger] requests[i]) > MAX_PROMPT_BYTES
}

/// What checking a request gives: the trimmed prompt to send, or why the
/// request is refused. The prompt must be non-blank and at most
/// `MAX_PROMPT_BYTES` long once trimmed, and the shell must be Zsh. A
/// follow-up's previous command must be non-blank, at most
/// `MAX_COMMAND_BYTES` long and free of NUL bytes, and it may carry at most
/// `MAX_PREVIOUS_REQUESTS` requests, none longer than a prompt.
pub open spec fn request_spec(
    shell: Seq<char>,
    prompt: Seq<char>,
    previous: Option<(Seq<char>, Seq<Seq<char>>)>,
) -> core::result::Result<Seq<char>, ErrorView> {
    let p = trim(prompt);
    if p.len() == 0 {
        Err(ErrorView::EmptyPrompt)
    } else if utf8_len(p) > MAX_PROMPT_BYTES {
        Err(ErrorView::PromptTooLarge(MAX_PROMPT_BYTES))
    } else if shell != SUPPORTED_SHELL@ {
        Err(ErrorView::UnsupportedShell(shell))
    } else {
        match previous {
            None => Ok(p),
            Some((command, requests)) => if trim(command).len() == 0 {
                Err(ErrorView::InvalidModelOutput("previous command is empty"@))
            } else if utf8_len(command) > MAX_COMMAND_BYTES {
                Err(ErrorView::CommandTooLarge(MAX_COMMAND_BYTES))
            } else if command.contains('\0') {
                Err(ErrorView::NulByte)
            } else if requests.len() > MAX_PREVIOUS_REQUESTS || has_oversized_request(requests) {
                Err(ErrorView::PromptTooLarge((MAX_PREVIOUS_REQUESTS * MAX_PROMPT_BYTES) as usize))
            } else {
                Ok(p)
            },
        }
    }
}

/// A request is accepted exactly when its trimmed prompt is non-blank and
/// fits in 8192 bytes, the shell is Zsh, and any follow-up names a non-blank
/// previous command of at most 32768 bytes without NUL bytes and carries at
/// most 8 previous requests, each of at most 8192 bytes; what is sent then is
/// the trimmed prompt. A follow-up whose requests are too many or any one of
/// them too long is refused as too large, for 8 prompts' worth of bytes.
pub proof fn lemma_accepted_follow_up_fits(
    shell: Seq<char>,
    prompt: Seq<char>,
    command: Seq<char>,
    requests: Seq<Seq<char>>,
)
    ensures
        (request_spec(shell, prompt, Some((command, requests))) is Ok) <==> {
            &&& trim(prompt).len() > 0
            &&& utf8_len(trim(prompt)) <= 8192
            &&& shell == "zsh"@
            &&& trim(command).len() > 0
            &&& utf8_len(command) <= 32768
            &&& !command.contains('\0')
            &&& requests.len() <= 8
            &&& forall|i: int| 0 <= i < requests.len() ==> utf8_len(#[trigger] requests[i]) <= 8192
        },
        request_spec(shell, prompt, Some((command, requests))) matches Ok(p) ==> p == trim(prompt),
        request_spec(shell, prompt, None) matches Ok(p) ==> p == trim(prompt),
        (request_spec(shell, prompt, None) is Ok && trim(command).len() > 0 && utf8_len(command)
            <= 32768 && !command.contains('\0') && (requests.len() > 8 || exists|i: int|
            0 <= i < requests.len() && utf8_len(#[trigger] requests[i]) > 8192)) ==> request_spec(
            shell,
            prompt,
            Some((command, requests)),
        ) == Err::<Seq<char>, ErrorView>(ErrorView::PromptTooLarge(65536)),
{
}

/// An optional follow-up taken by its view.
pub open spec fn previous_view(previous: Option<&PreviousCommand>) -> Option<
    (Seq<char>, Seq<Seq<char>>),
> {
    match previous {
        Some(p) => Some(p@),
        None => None,
    }
}

/// What to do next in a translation.
#[derive(Debug)]
pub enum TranslationStep {
    /// Collect the context of the shell in the working directory, then send
    /// this (trimmed) prompt to the model, with the follow-up if there is one.
    AskModel { prompt: String },
    /// Check the syntax of the generated command in the shell without running
    /// it; on success the output is the result.
    CheckSyntax { output: CommandOutput },
    /// The translation is over.
    Done(Result<CommandOutput>),
}

/// Whether some request is longer than a prompt may be.
fn oversized_request(requests: &Vec<String>) -> (b: bool)
    ensures
        b == has_oversized_request(requests.deep_view()),
{
    let ghost d = requests.deep_view();
    let mut i: usize = 0;
    while i < requests.len()
        invariant
            i <= requests.len(),
            d == requests.deep_view(),
            forall|k: int| 0 <= k < i ==> utf8_len(#[trigger] d[k]) <= MAX_PROMPT_BYTES,
        decreases requests.len() - i,
    {
        assert(d[i as int] == requests@[i as int]@);
        if utf8_len_exceeds(&chars_of(requests[i].as_str()), MAX_PROMPT_BYTES) {
            return true;
        }
        i = i + 1;
    }
    false
}

/// The first step of a translation: refuse the request (see `request_spec`)
/// or ask the model with the trimmed prompt.
pub fn start_translation(shell: &str, prompt: &str, previous: Option<&PreviousCommand>) -> (step:
    TranslationStep)
    ensures
        match request_spec(shell@, prompt@, previous_view(previous)) {
            Ok(p) => step matches TranslationStep::AskModel { prompt: q } && q@ == p,
            Err(e) => step matches TranslationStep::Done(Err(e2)) && e2@ == e,
        },
{
    let p = trim_chars(&chars_of(prompt));
    if p.len() == 0 {
        return TranslationStep::Done(Err(SaycmdError::EmptyPrompt));
    }
    if utf8_len_exceeds(&p, MAX_PROMPT_BYTES) {
        return TranslationStep::Done(Err(SaycmdError::PromptTooLarge(MAX_PROMPT_BYTES)));
    }
    if shell.to_owned() != SUPPORTED_SHELL.to_owned() {
        return TranslationStep::Done(Err(SaycmdError::UnsupportedShell(shell.to_owned())));
    }
    if let Some(previous) = previous {
        let command = chars_of(previous.command.as_str());
        if trim_chars(&command).len() == 0 {
            return TranslationStep::Done(
                Err(SaycmdError::InvalidModelOutput("previous command is empty".to_owned())),
            );
        }
        if utf8_len_exceeds(&command, MAX_COMMAND_BYTES) {
            return TranslationStep::Done(Err(SaycmdError::CommandTooLarge(MAX_COMMAND_BYTES)));
        }
        if contains_char(&command, '\0') {
            return TranslationStep::Done(Err(SaycmdError::NulByte));
        }
        if previous.requests.len() > MAX_PREVIOUS_REQUESTS || oversized_request(
            &previous.requests,
        ) {
            return TranslationStep::Done(
                Err(SaycmdError::PromptTooLarge(MAX_PREVIOUS_REQUESTS * MAX_PROMPT_BYTES)),
            );
        }
    }
    TranslationStep::AskModel { prompt: string_of(&p) }
}

/// The step after the model answered (or failed to): a failure ends the
/// translation; a reply is read (see `parse_output`) and, when it holds a
/// valid command object, its command goes to the syntax check.
pub fn on_model_reply(reply: Result<String>, explain: bool) -> (step: TranslationStep)
    ensures
        match reply {
            Err(e) => step matches TranslationStep::Done(Err(e2)) && e2@ == e@,
            Ok(content) => match parse_output_spec(content@, explain) {
                Ok(o) => step matches TranslationStep::CheckSyntax { output } && output@ == o,
                Err(e) => step matches TranslationStep::Done(Err(e2)) && e2@ == e,
            },
        },
{
    match reply {
        Err(e) => TranslationStep::Done(Err(e)),
        Ok(content) => match parse_output(content.as_str(), explain) {
            Ok(output) => TranslationStep::CheckSyntax { output },
            Err(e) => TranslationStep::Done(Err(e)),
        },
    }
}

/// The step after the syntax check: the output when the shell accepted the
/// command, else the check's error.
pub fn on_syntax_checked(output: CommandOutput, check: Result<()>) -> (step: TranslationStep)
    ensures
        match check {
            Ok(()) => step matches TranslationStep::Done(Ok(o)) && o@ == output@,
            Err(e) => step matches TranslationStep::Done(Err(e2)) && e2@ == e@,
        },
{
    match check {
        Ok(()) => TranslationStep::Done(Ok(output)),
        Err(e) => TranslationStep::Done(Err(e)),
    }
}

/// A prompt that is sent to the model is never blank: it is trimmed, starts
/// and ends with a character other than whitespace, and fits in
/// `MAX_PROMPT_BYTES`; and it is sent only for Zsh.
pub proof fn lemma_sent_prompt_is_checked(
    shell: Seq<char>,
    prompt: Seq<char>,
    previous: Option<(Seq<char>, Seq<Seq<char>>)>,
)
    ensures
        request_spec(shell, prompt, previous) matches Ok(p) ==> {
            &&& p == trim(prompt)
            &&& p.len() > 0
            &&& !crate::text::is_ws(p[0]) && !crate::text::is_ws(p.last())
            &&& utf8_len(p) <= MAX_PROMPT_BYTES
            &&& shell == SUPPORTED_SHELL@
        },
{
    crate::text::lemma_trim_edges(prompt);
}

/// The outcome of a whole translation, as the three steps make it when run in
/// order: `start_translation`, then (when it asks the model) `on_model_reply`
/// with the model's `reply`, then (when it asks for a syntax check)
/// `on_syntax_checked` with the shell's verdict `check`. It is the first error
/// of checking the request, asking the model, reading its reply and checking
/// the syntax; otherwise the output read from the reply.
pub open spec fn translation_spec(
    shell: Seq<char>,
    prompt: Seq<char>,
    previous: Option<(Seq<char>, Seq<Seq<char>>)>,
    explain: bool,
    reply: core::result::Result<Seq<char>, ErrorView>,
    check: core::result::Result<(), ErrorView>,
) -> core::result::Result<(Seq<char>, Option<Seq<char>>), ErrorView> {
    match request_spec(shell, prompt, previous) {
        Err(e) => Err(e),
        Ok(_) => match reply {
            Err(e) => Err(e),
            Ok(content) => match parse_output_spec(content, explain) {
                Err(e) => Err(e),
                Ok(o) => match check {
                    Ok(()) => Ok(o),
                    Err(e) => Err(e),
                },
            },
        },
    }
}

/// A translation that succeeds was asked for properly, was answered, and
/// its command passed the syntax check; its output is what reading the reply
/// gave, with an explanation exactly when one was asked for. A refused
/// request ends with its own error, whatever the model and the shell would
/// have said.
pub proof fn lemma_translation_outcome(
    shell: Seq<char>,
    prompt: Seq<char>,
    previous: Option<(Seq<char>, Seq<Seq<char>>)>,
    explain: bool,
    reply: core::result::Result<Seq<char>, ErrorView>,
    check: core::result::Result<(), ErrorView>,
)
    ensures
        translation_spec(shell, prompt, previous, explain, reply, check) matches Ok(o) ==> {
            &&& request_spec(shell, prompt, previous) is Ok
            &&& reply matches Ok(content) && parse_output_spec(content, explain) == Ok::<
                (Seq<char>, Option<Seq<char>>),
                ErrorView,
            >(o)
            &&& check is Ok
            &&& (o.1 is Some <==> explain)
        },
        request_spec(shell, prompt, previous) matches Err(e) ==> translation_spec(
            shell,
            prompt,
            previous,
            explain,
            reply,
            check,
        ) == Err::<(Seq<char>, Option<Seq<char>>), ErrorView>(e),
{
    if let Ok(content) = reply {
        crate::output::lemma_output_is_checked(content, explain);
    }
}

} // verus!
