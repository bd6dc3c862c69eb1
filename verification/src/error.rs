//! The errors that the library reports.
use vstd::prelude::*;

verus! {

/// Everything that can go wrong between a request and a reviewable command.
///
/// Where an error carries the text of an underlying failure (an I/O error, a
/// configuration parse error, an HTTP failure), that text is held as a string.
#[derive(Debug)]
pub enum SaycmdError {
    EmptyPrompt,
    PromptTooLarge(usize),
    CommandTooLarge(usize),
    UnsupportedShell(String),
    MissingModel,
    MissingApiKey(String),
    ConfigRead { path: String, message: String },
    ConfigParse { path: String, message: String },
    InvalidBaseUrl(String),
    InvalidExplain(String),
    InvalidTimeout(String),
    Http(String),
    ApiStatus { status: u16, message: String },
    MissingAssistantContent,
    InvalidModelOutput(String),
    NulByte,
    InvalidSyntax { shell: String, message: String },
    Process { program: String, message: String },
    InvalidCwd(String),
}

/// The result of the library's fallible operations.
pub type Result<T> = core::result::Result<T, SaycmdError>;

/// An error as the contracts speak of it: each string taken by its characters.
pub enum ErrorView {
    EmptyPrompt,
    PromptTooLarge(usize),
    CommandTooLarge(usize),
    UnsupportedShell(Seq<char>),
    MissingModel,
    MissingApiKey(Seq<char>),
    ConfigRead { path: Seq<char>, message: Seq<char> },
    ConfigParse { path: Seq<char>, message: Seq<char> },
    InvalidBaseUrl(Seq<char>),
    InvalidExplain(Seq<char>),
    InvalidTimeout(Seq<char>),
    Http(Seq<char>),
    ApiStatus { status: u16, message: Seq<char> },
    MissingAssistantContent,
    InvalidModelOutput(Seq<char>),
    NulByte,
    InvalidSyntax { shell: Seq<char>, message: Seq<char> },
    Process { program: Seq<char>, message: Seq<char> },
    InvalidCwd(Seq<char>),
}

impl View for SaycmdError {
    type V = ErrorView;

    open spec fn view(&self) -> ErrorView {
        match self {
            SaycmdError::EmptyPrompt => ErrorView::EmptyPrompt,
            SaycmdError::PromptTooLarge(n) => ErrorView::PromptTooLarge(*n),
            SaycmdError::CommandTooLarge(n) => ErrorView::CommandTooLarge(*n),
            SaycmdError::UnsupportedShell(s) => ErrorView::UnsupportedShell(s@),
            SaycmdError::MissingModel => ErrorView::MissingModel,
            SaycmdError::MissingApiKey(s) => ErrorView::MissingApiKey(s@),
            SaycmdError::ConfigRead { path, message } => ErrorView::ConfigRead {
                path: path@,
                message: message@,
            },
            SaycmdError::ConfigParse { path, message } => ErrorView::ConfigParse {
                path: path@,
                message: message@,
            },
            SaycmdError::InvalidBaseUrl(s) => ErrorView::InvalidBaseUrl(s@),
            SaycmdError::InvalidExplain(s) => ErrorView::InvalidExplain(s@),
            SaycmdError::InvalidTimeout(s) => ErrorView::InvalidTimeout(s@),
            SaycmdError::Http(s) => ErrorView::Http(s@),
            SaycmdError::ApiStatus { status, message } => ErrorView::ApiStatus {
                status: *status,
                message: message@,
            },
            SaycmdError::MissingAssistantContent => ErrorView::MissingAssistantContent,
            SaycmdError::InvalidModelOutput(s) => ErrorView::InvalidModelOutput(s@),
            SaycmdError::NulByte => ErrorView::NulByte,
            SaycmdError::InvalidSyntax { shell, message } => ErrorView::InvalidSyntax {
                shell: shell@,
                message: message@,
            },
            SaycmdError::Process { program, message } => ErrorView::Process {
                program: program@,
                message: message@,
            },
            SaycmdError::InvalidCwd(s) => ErrorView::InvalidCwd(s@),
        }
    }
}

/// What a timed-out request reports, with the settings that lengthen the wait.
pub const TIMEOUT_MESSAGE: &'static str = "request timed out; increase timeout_seconds in config.toml or SAYCMD_TIMEOUT_SECONDS";

/// The messages of an error and of its causes, in order, joined by `": "`.
pub open spec fn join_causes(chain: Seq<Seq<char>>) -> Seq<char>
    decreases chain.len(),
{
    if chain.len() == 0 {
        Seq::empty()
    } else if chain.len() == 1 {
        chain[0]
    } else {
        join_causes(chain.drop_last()) + seq![':', ' '] + chain.last()
    }
}

/// How a failed HTTP request is reported: a timeout by `TIMEOUT_MESSAGE`;
/// any other failure by the messages of the error and its causes joined by
/// `": "`, with its words on one line.
pub open spec fn http_error_text_spec(timed_out: bool, chain: Seq<Seq<char>>) -> Seq<char> {
    if timed_out {
        TIMEOUT_MESSAGE@
    } else {
        crate::text::collapse_ws(join_causes(chain))
    }
}

/// How a failed HTTP request is reported, given whether it timed out and the
/// messages of the error and its causes.
pub fn http_error_text(timed_out: bool, chain: &Vec<String>) -> (r: String)
    ensures
        r@ == http_error_text_spec(timed_out, chain.deep_view()),
{
    if timed_out {
        return TIMEOUT_MESSAGE.to_owned();
    }
    let ghost d = chain.deep_view();
    let mut joined: Vec<char> = Vec::new();
    let mut i: usize = 0;
    assert(d.take(0) =~= Seq::<Seq<char>>::empty());
    while i < chain.len()
        invariant
            i <= chain.len(),
            d == chain.deep_view(),
            joined@ == join_causes(d.take(i as int)),
        decreases chain.len() - i,
    {
        assert(d[i as int] == chain@[i as int]@);
        assert(d.take(i + 1).drop_last() =~= d.take(i as int));
        assert(d.take(i + 1).last() == d[i as int]);
        if i > 0 {
            joined.push(':');
            joined.push(' ');
        }
        let message = crate::text::chars_of(chain[i].as_str());
        joined = crate::text::concat_chars(&joined, &message);
        i = i + 1;
        assert(joined@ =~= join_causes(d.take(i as int)));
    }
    assert(d.take(chain.len() as int) =~= d);
    crate::text::string_of(&crate::text::collapse_whitespace(&joined))
}

/// The digit character for `d`, which is below ten.
pub open spec fn digit_char(d: nat) -> char {
    if d == 0 { '0' } else if d == 1 { '1' } else if d == 2 { '2' } else if d == 3 { '3' }
    else if d == 4 { '4' } else if d == 5 { '5' } else if d == 6 { '6' } else if d == 7 { '7' }
    else if d == 8 { '8' } else { '9' }
}

/// `n` written in decimal, without leading zeros.
pub open spec fn decimal(n: nat) -> Seq<char>
    decreases n,
{
    if n < 10 {
        seq![digit_char(n)]
    } else {
        decimal(n / 10).push(digit_char(n % 10))
    }
}

/// The digit character for `d`.
fn digit(d: u64) -> (c: char)
    requires
        d < 10,
    ensures
        c == digit_char(d as nat),
{
    if d == 0 { '0' } else if d == 1 { '1' } else if d == 2 { '2' } else if d == 3 { '3' }
    else if d == 4 { '4' } else if d == 5 { '5' } else if d == 6 { '6' } else if d == 7 { '7' }
    else if d == 8 { '8' } else { '9' }
}

/// `n` written in decimal.
pub fn decimal_chars(n: u64) -> (v: Vec<char>)
    ensures
        v@ == decimal(n as nat),
    decreases n,
{
    if n < 10 {
        let mut v: Vec<char> = Vec::new();
        v.push(digit(n));
        assert(v@ =~= seq![digit_char(n as nat)]);
        v
    } else {
        let mut v = decimal_chars(n / 10);
        v.push(digit(n % 10));
        v
    }
}

/// The text of `a` and `b` in a row.
fn join2(a: &str, b: &str) -> (r: String)
    ensures
        r@ == a@ + b@,
{
    crate::text::string_of(&crate::text::concat_chars(&crate::text::chars_of(a), &crate::text::chars_of(b)))
}

/// The text of `a`, `b` and `c` in a row.
fn join3(a: &str, b: &str, c: &str) -> (r: String)
    ensures
        r@ == a@ + b@ + c@,
{
    let ab = crate::text::concat_chars(&crate::text::chars_of(a), &crate::text::chars_of(b));
    crate::text::string_of(&crate::text::concat_chars(&ab, &crate::text::chars_of(c)))
}

/// The text of `a`, `b`, `c` and `d` in a row.
fn join4(a: &str, b: &str, c: &str, d: &str) -> (r: String)
    ensures
        r@ == a@ + b@ + c@ + d@,
{
    let abc = join3(a, b, c);
    join2(abc.as_str(), d)
}

/// How an error reads for people.
pub open spec fn message_spec(e: ErrorView) -> Seq<char> {
    match e {
        ErrorView::EmptyPrompt => "prompt is empty"@,
        ErrorView::PromptTooLarge(n) => "prompt exceeds the "@ + decimal(n as nat) + "-byte limit"@,
        ErrorView::CommandTooLarge(n) => "generated command exceeds the "@ + decimal(n as nat)
            + "-byte limit"@,
        ErrorView::UnsupportedShell(s) => "unsupported shell: "@ + s,
        ErrorView::MissingModel => "model is not configured; set SAYCMD_MODEL or add model to the config file"@,
        ErrorView::MissingApiKey(s) => "API key environment variable "@ + s + " is not set"@,
        ErrorView::ConfigRead { path, message } => "cannot read config "@ + path + ": "@ + message,
        ErrorView::ConfigParse { path, message } => "cannot parse config "@ + path + ": "@ + message,
        ErrorView::InvalidBaseUrl(s) => "invalid API base URL: "@ + s,
        ErrorView::InvalidExplain(s) => "invalid SAYCMD_EXPLAIN: "@ + s + "; expected true or false"@,
        ErrorView::InvalidTimeout(s) => "invalid timeout in SAYCMD_TIMEOUT_SECONDS: "@ + s,
        ErrorView::Http(s) => "API request failed: "@ + s,
        ErrorView::ApiStatus { status, message } => "API returned HTTP "@ + decimal(status as nat)
            + ": "@ + message,
        ErrorView::MissingAssistantContent => "API response did not contain assistant text"@,
        ErrorView::InvalidModelOutput(s) => "model response is not a valid command object: "@ + s,
        ErrorView::NulByte => "generated command contains a NUL byte"@,
        ErrorView::InvalidSyntax { shell, message } => "generated "@ + shell
            + " script has invalid syntax: "@ + message,
        ErrorView::Process { program, message } => "cannot run "@ + program + ": "@ + message,
        ErrorView::InvalidCwd(s) => "current working directory is invalid: "@ + s,
    }
}

impl SaycmdError {
    /// How the error reads for people (see `message_spec`).
    pub fn message(&self) -> (m: String)
        ensures
            m@ == message_spec(self@),
    {
        match self {
            SaycmdError::EmptyPrompt => "prompt is empty".to_owned(),
            SaycmdError::PromptTooLarge(n) => {
                let digits = crate::text::string_of(&decimal_chars(*n as u64));
                join3("prompt exceeds the ", digits.as_str(), "-byte limit")
            },
            SaycmdError::CommandTooLarge(n) => {
                let digits = crate::text::string_of(&decimal_chars(*n as u64));
                join3("generated command exceeds the ", digits.as_str(), "-byte limit")
            },
            SaycmdError::UnsupportedShell(s) => join2("unsupported shell: ", s.as_str()),
            SaycmdError::MissingModel => "model is not configured; set SAYCMD_MODEL or add model to the config file".to_owned(),
            SaycmdError::MissingApiKey(s) => join3("API key environment variable ", s.as_str(), " is not set"),
            SaycmdError::ConfigRead { path, message } => join4("cannot read config ", path.as_str(), ": ", message.as_str()),
            SaycmdError::ConfigParse { path, message } => join4("cannot parse config ", path.as_str(), ": ", message.as_str()),
            SaycmdError::InvalidBaseUrl(s) => join2("invalid API base URL: ", s.as_str()),
            SaycmdError::InvalidExplain(s) => join3("invalid SAYCMD_EXPLAIN: ", s.as_str(), "; expected true or false"),
            SaycmdError::InvalidTimeout(s) => join2("invalid timeout in SAYCMD_TIMEOUT_SECONDS: ", s.as_str()),
            SaycmdError::Http(s) => join2("API request failed: ", s.as_str()),
            SaycmdError::ApiStatus { status, message } => {
                let digits = crate::text::string_of(&decimal_chars(*status as u64));
                join4("API returned HTTP ", digits.as_str(), ": ", message.as_str())
            },
            SaycmdError::MissingAssistantContent => "API response did not contain assistant text".to_owned(),
            SaycmdError::InvalidModelOutput(s) => join2("model response is not a valid command object: ", s.as_str()),
            SaycmdError::NulByte => "generated command contains a NUL byte".to_owned(),
            SaycmdError::InvalidSyntax { shell, message } => join4("generated ", shell.as_str(), " script has invalid syntax: ", message.as_str()),
            SaycmdError::Process { program, message } => join4("cannot run ", program.as_str(), ": ", message.as_str()),
            SaycmdError::InvalidCwd(s) => join2("current working directory is invalid: ", s.as_str()),
        }
    }
}

} // verus!
