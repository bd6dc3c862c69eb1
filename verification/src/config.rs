//! Settings: what the configuration file holds, what the environment
//! overrides, and the defaults that fill the rest.
use vstd::prelude::*;

use core::time::Duration;

use crate::error::{ErrorView, Result, SaycmdError};
use crate::text::{blank_chars, chars_of, is_blank, string_of};

verus! {

/// Prefix that marks a request in the shell when none is configured.
pub const DEFAULT_PREFIX: &'static str = "？";

/// API base URL when none is configured.
pub const DEFAULT_BASE_URL: &'static str = "https://api.openai.com/v1";

/// Environment variable that holds the API key when none is configured.
pub const DEFAULT_KEY_ENV: &'static str = "OPENAI_API_KEY";

/// Request timeout, in seconds, when none is configured.
pub const DEFAULT_TIMEOUT_SECONDS: u64 = 30;

/// The settings that the configuration file may hold; each may be absent.
#[derive(Debug)]
pub struct FileConfig {
    pub prefix: Option<String>,
    pub explain: Option<bool>,
    pub base_url: Option<String>,
    pub model: Option<String>,
    pub api_key_env: Option<String>,
    pub timeout_seconds: Option<u64>,
}

/// A configuration file's settings, each string taken by its characters.
pub struct FileConfigView {
    pub prefix: Option<Seq<char>>,
    pub explain: Option<bool>,
    pub base_url: Option<Seq<char>>,
    pub model: Option<Seq<char>>,
    pub api_key_env: Option<Seq<char>>,
    pub timeout_seconds: Option<u64>,
}

impl View for FileConfig {
    type V = FileConfigView;

    open spec fn view(&self) -> FileConfigView {
        FileConfigView {
            prefix: self.prefix.deep_view(),
            explain: self.explain,
            base_url: self.base_url.deep_view(),
            model: self.model.deep_view(),
            api_key_env: self.api_key_env.deep_view(),
            timeout_seconds: self.timeout_seconds,
        }
    }
}

impl Default for FileConfig {
    fn default() -> (c: Self)
        ensures
            c.prefix is None,
            c.explain is None,
            c.base_url is None,
            c.model is None,
            c.api_key_env is None,
            c.timeout_seconds is None,
    {
        FileConfig {
            prefix: None,
            explain: None,
            base_url: None,
            model: None,
            api_key_env: None,
            timeout_seconds: None,
        }
    }
}

/// The process environment: its variables, each a name and a value.
#[derive(Debug)]
pub struct Environment {
    pub vars: Vec<(String, String)>,
}

impl View for Environment {
    type V = Seq<(Seq<char>, Seq<char>)>;

    open spec fn view(&self) -> Seq<(Seq<char>, Seq<char>)> {
        self.vars.deep_view()
    }
}

/// The value of the first variable named `name`.
pub open spec fn env_lookup(vars: Seq<(Seq<char>, Seq<char>)>, name: Seq<char>) -> Option<
    Seq<char>,
>
    decreases vars.len(),
{
    if vars.len() == 0 {
        None
    } else if vars[0].0 == name {
        Some(vars[0].1)
    } else {
        env_lookup(vars.drop_first(), name)
    }
}

/// The variable `name` when it is set to something other than whitespace.
pub open spec fn env_value_spec(vars: Seq<(Seq<char>, Seq<char>)>, name: Seq<char>) -> Option<
    Seq<char>,
> {
    match env_lookup(vars, name) {
        Some(v) => if is_blank(v) {
            None
        } else {
            Some(v)
        },
        None => None,
    }
}

impl Environment {
    /// The variable `name` when it is set to something other than whitespace.
    pub fn value(&self, name: &str) -> (r: Option<String>)
        ensures
            r.deep_view() == env_value_spec(self@, name@),
    {
        let key = name.to_owned();
        let ghost d = self@;
        let mut i: usize = 0;
        assert(d.skip(0) =~= d);
        while i < self.vars.len()
            invariant
                i <= self.vars.len(),
                d == self@,
                key@ == name@,
                env_lookup(d, name@) == env_lookup(d.skip(i as int), name@),
            decreases self.vars.len() - i,
        {
            let ghost t = d.skip(i as int);
            assert(t[0] == d[i as int]);
            assert(d[i as int] == (self.vars@[i as int].0@, self.vars@[i as int].1@));
            if self.vars[i].0 == key {
                let value = &self.vars[i].1;
                if blank_chars(&chars_of(value.as_str())) {
                    return None;
                }
                return Some(value.clone());
            }
            assert(t.drop_first() =~= d.skip(i + 1));
            i = i + 1;
        }
        assert(d.skip(i as int).len() == 0);
        None
    }
}

/// Whether `c` is an ASCII decimal digit.
pub open spec fn is_digit(c: char) -> bool {
    '0' <= c && c <= '9'
}

/// The number that the decimal digits `d` write.
pub open spec fn digits_value(d: Seq<char>) -> nat
    decreases d.len(),
{
    if d.len() == 0 {
        0
    } else {
        digits_value(d.drop_last()) * 10 + ((d.last() as u32) - ('0' as u32)) as nat
    }
}

/// `s` without the `+` that may open it.
pub open spec fn unsigned_digits(s: Seq<char>) -> Seq<char> {
    if s.len() > 0 && s[0] == '+' {
        s.drop_first()
    } else {
        s
    }
}

/// Whether `d` is made of decimal digits only.
pub open spec fn all_digits(d: Seq<char>) -> bool {
    forall|i: int| 0 <= i < d.len() ==> is_digit(#[trigger] d[i])
}

/// `s` read as an unsigned 64-bit integer the way `u64::from_str` reads it:
/// an optional `+`, then one or more decimal digits, of value at most
/// `u64::MAX`.
pub open spec fn parse_u64_spec(s: Seq<char>) -> Option<u64> {
    let d = unsigned_digits(s);
    if d.len() > 0 && all_digits(d) && digits_value(d) <= u64::MAX {
        Some(digits_value(d) as u64)
    } else {
        None
    }
}

/// `s` read as a boolean the way `bool::from_str` reads it.
pub open spec fn parse_bool_spec(s: Seq<char>) -> Option<bool> {
    if s == "true"@ {
        Some(true)
    } else if s == "false"@ {
        Some(false)
    } else {
        None
    }
}

/// A longer run of digits writes a number at least as large.
proof fn lemma_digits_value_grows(d: Seq<char>, i: int)
    requires
        0 <= i <= d.len(),
    ensures
        digits_value(d.take(i)) <= digits_value(d),
    decreases d.len() - i,
{
    if i < d.len() {
        lemma_digits_value_grows(d.drop_last(), i);
        assert(d.drop_last().take(i) =~= d.take(i));
    } else {
        assert(d.take(i) =~= d);
    }
}

/// Reads `s` as an unsigned 64-bit integer.
pub fn parse_u64(s: &str) -> (r: Option<u64>)
    ensures
        r == parse_u64_spec(s@),
{
    let v = chars_of(s);
    let start: usize = if v.len() > 0 && v[0] == '+' {
        1
    } else {
        0
    };
    let ghost d = unsigned_digits(v@);
    assert(d =~= v@.skip(start as int));
    if start >= v.len() {
        return None;
    }
    let mut value: u64 = 0;
    let mut i = start;
    assert(d.take(0) =~= Seq::<char>::empty());
    while i < v.len()
        invariant
            start < v.len(),
            start <= i <= v.len(),
            v@ == s@,
            d == unsigned_digits(s@),
            d == v@.skip(start as int),
            forall|k: int| 0 <= k < i - start ==> is_digit(#[trigger] d[k]),
            value == digits_value(d.take(i - start)),
        decreases v.len() - i,
    {
        let c = v[i];
        let ghost j = i - start;
        assert(d[j] == c);
        assert(d.take(j + 1).drop_last() =~= d.take(j));
        assert(d.take(j + 1).last() == c);
        if c < '0' || c > '9' {
            assert(!is_digit(d[j]));
            assert(!all_digits(d));
            return None;
        }
        let digit = (c as u32 - '0' as u32) as u64;
        if value > (u64::MAX - digit) / 10 {
            proof {
                let m = u64::MAX as int;
                assert(value * 10 + digit > m) by (nonlinear_arith)
                    requires
                        value > (m - digit) / 10,
                        0 <= digit <= 9,
                        m > 9,
                ;
                assert(digits_value(d.take(j + 1)) == value * 10 + digit);
                lemma_digits_value_grows(d, j + 1);
            }
            return None;
        }
        value = value * 10 + digit;
        i = i + 1;
    }
    assert(d.take(d.len() as int) =~= d);
    Some(value)
}

/// Reads `s` as a boolean.
pub fn parse_bool(s: &str) -> (r: Option<bool>)
    ensures
        r == parse_bool_spec(s@),
{
    let text = s.to_owned();
    if text == "true".to_owned() {
        Some(true)
    } else if text == "false".to_owned() {
        Some(false)
    } else {
        None
    }
}

/// The prefix a request is marked with: the environment's `SAYCMD_PREFIX`,
/// else the file's non-blank prefix, else the default.
pub open spec fn prefix_spec(file: FileConfigView, env: Seq<(Seq<char>, Seq<char>)>) -> Seq<char> {
    match env_value_spec(env, "SAYCMD_PREFIX"@) {
        Some(p) => p,
        None => match file.prefix {
            Some(p) => if is_blank(p) {
                DEFAULT_PREFIX@
            } else {
                p
            },
            None => DEFAULT_PREFIX@,
        },
    }
}

/// Settings without the model and API configuration: the request prefix,
/// from a file that was read (or failed to be) and the environment.
pub fn load_prefix(file: Result<FileConfig>, env: &Environment) -> (r: Result<String>)
    ensures
        match file {
            Err(e) => r matches Err(e2) && e2@ == e@,
            Ok(f) => r matches Ok(p) && p@ == prefix_spec(f@, env@),
        },
{
    let file = match file {
        Ok(f) => f,
        Err(e) => return Err(e),
    };
    if let Some(p) = env.value("SAYCMD_PREFIX") {
        return Ok(p);
    }
    match file.prefix {
        Some(p) => {
            if blank_chars(&chars_of(p.as_str())) {
                Ok(DEFAULT_PREFIX.to_owned())
            } else {
                Ok(p)
            }
        },
        None => Ok(DEFAULT_PREFIX.to_owned()),
    }
}

/// `s` without the slashes at its end.
pub open spec fn trim_end_slashes(s: Seq<char>) -> Seq<char>
    decreases s.len(),
{
    if s.len() > 0 && s.last() == '/' {
        trim_end_slashes(s.drop_last())
    } else {
        s
    }
}

/// `s` without the slashes at its end (`str::trim_end_matches('/')`).
pub fn without_trailing_slashes(s: &str) -> (r: String)
    ensures
        r@ == trim_end_slashes(s@),
{
    let v = chars_of(s);
    let mut end = v.len();
    assert(v@.take(v.len() as int) =~= v@);
    while end > 0 && v[end - 1] == '/'
        invariant
            end <= v.len(),
            trim_end_slashes(v@) == trim_end_slashes(v@.take(end as int)),
        decreases end,
    {
        assert(v@.take(end as int).drop_last() =~= v@.take(end - 1));
        end = end - 1;
    }
    assert(v@.take(v.len() as int) =~= v@);
    assert(v@.take(end as int) =~= v@.subrange(0, end as int));
    string_of(&crate::text::slice_chars(&v, 0, end))
}

/// A duration of `secs` seconds, as `Duration::from_secs` makes it.
pub uninterp spec fn duration_of_secs(secs: u64) -> Duration;

/// Calls `Duration::from_secs`; claims that the result is a function of the
/// number of seconds, named `duration_of_secs`.
#[verifier::external_body]
fn seconds(secs: u64) -> (d: Duration)
    ensures
        d == duration_of_secs(secs),
{
    Duration::from_secs(secs)
}

/// The settings that requests are made with.
#[derive(Debug)]
pub struct Config {
    pub explain: bool,
    pub base_url: String,
    pub model: String,
    pub api_key: Option<String>,
    pub api_key_env: String,
    pub timeout: Duration,
}

/// The settings as the contracts speak of them; the timeout in seconds.
pub struct ConfigView {
    pub explain: bool,
    pub base_url: Seq<char>,
    pub model: Seq<char>,
    pub api_key: Option<Seq<char>>,
    pub api_key_env: Seq<char>,
    pub timeout_seconds: u64,
}

/// `a` when it is set, else `b`.
pub open spec fn or_else<T>(a: Option<T>, b: Option<T>) -> Option<T> {
    match a {
        Some(x) => Some(x),
        None => b,
    }
}

/// The settings made from the file and the environment. Each setting is
/// taken from its `SAYCMD_*` variable when that is set to something other
/// than whitespace, else from the file, else from its default. The API key
/// is `SAYCMD_API_KEY`, else the variable that `api_key_env` names (unless
/// that name is empty). The model has no default; the timeout and the
/// explain flag must read as a number and a boolean when set in the
/// environment.
pub open spec fn config_spec(file: FileConfigView, env: Seq<(Seq<char>, Seq<char>)>) -> core::result::Result<
    ConfigView,
    ErrorView,
> {
    let base_url = match or_else(env_value_spec(env, "SAYCMD_BASE_URL"@), file.base_url) {
        Some(u) => u,
        None => DEFAULT_BASE_URL@,
    };
    let api_key_env = match or_else(env_value_spec(env, "SAYCMD_API_KEY_ENV"@), file.api_key_env) {
        Some(n) => n,
        None => DEFAULT_KEY_ENV@,
    };
    let api_key = match env_value_spec(env, "SAYCMD_API_KEY"@) {
        Some(k) => Some(k),
        None => if api_key_env.len() == 0 {
            None
        } else {
            env_value_spec(env, api_key_env)
        },
    };
    match or_else(env_value_spec(env, "SAYCMD_MODEL"@), file.model) {
        None => Err(ErrorView::MissingModel),
        Some(model) => {
            let timeout = match env_value_spec(env, "SAYCMD_TIMEOUT_SECONDS"@) {
                Some(raw) => match parse_u64_spec(raw) {
                    Some(n) => Ok(n),
                    None => Err(ErrorView::InvalidTimeout(raw)),
                },
                None => Ok(
                    match file.timeout_seconds {
                        Some(n) => n,
                        None => DEFAULT_TIMEOUT_SECONDS,
                    },
                ),
            };
            let explain = match env_value_spec(env, "SAYCMD_EXPLAIN"@) {
                Some(raw) => match parse_bool_spec(raw) {
                    Some(b) => Ok(b),
                    None => Err(ErrorView::InvalidExplain(raw)),
                },
                None => Ok(
                    match file.explain {
                        Some(b) => b,
                        None => false,
                    },
                ),
            };
            match timeout {
                Err(e) => Err(e),
                Ok(timeout_seconds) => match explain {
                    Err(e) => Err(e),
                    Ok(explain) => Ok(
                        ConfigView {
                            explain,
                            base_url: trim_end_slashes(base_url),
                            model,
                            api_key,
                            api_key_env,
                            timeout_seconds,
                        },
                    ),
                },
            }
        },
    }
}

/// The config matches its description, the timeout being a duration of the
/// described number of seconds.
pub open spec fn config_matches(c: Config, v: ConfigView) -> bool {
    &&& c.explain == v.explain
    &&& c.base_url@ == v.base_url
    &&& c.model@ == v.model
    &&& c.api_key.deep_view() == v.api_key
    &&& c.api_key_env@ == v.api_key_env
    &&& c.timeout == duration_of_secs(v.timeout_seconds)
}

/// `a` when it is set, else `b`.
fn either(a: Option<String>, b: Option<String>) -> (r: Option<String>)
    ensures
        r.deep_view() == or_else(a.deep_view(), b.deep_view()),
{
    match a {
        Some(x) => Some(x),
        None => b,
    }
}

impl Config {
    /// The settings made from the file and the environment (`config_spec`).
    pub fn from_file_and_env(file: FileConfig, env: &Environment) -> (r: Result<Config>)
        ensures
            match config_spec(file@, env@) {
                Ok(v) => r matches Ok(c) && config_matches(c, v),
                Err(e) => r matches Err(e2) && e2@ == e,
            },
    {
        let ghost f = file@;
        let base_url = match either(env.value("SAYCMD_BASE_URL"), file.base_url) {
            Some(u) => u,
            None => DEFAULT_BASE_URL.to_owned(),
        };
        let model = match either(env.value("SAYCMD_MODEL"), file.model) {
            Some(m) => m,
            None => return Err(SaycmdError::MissingModel),
        };
        let api_key_env = match either(env.value("SAYCMD_API_KEY_ENV"), file.api_key_env) {
            Some(n) => n,
            None => DEFAULT_KEY_ENV.to_owned(),
        };
        let api_key = match env.value("SAYCMD_API_KEY") {
            Some(k) => Some(k),
            None => if api_key_env.as_str().is_empty() {
                None
            } else {
                env.value(api_key_env.as_str())
            },
        };
        let timeout_seconds = match env.value("SAYCMD_TIMEOUT_SECONDS") {
            Some(raw) => match parse_u64(raw.as_str()) {
                Some(n) => n,
                None => return Err(SaycmdError::InvalidTimeout(raw)),
            },
            None => match file.timeout_seconds {
                Some(n) => n,
                None => DEFAULT_TIMEOUT_SECONDS,
            },
        };
        let explain = match env.value("SAYCMD_EXPLAIN") {
            Some(raw) => match parse_bool(raw.as_str()) {
                Some(b) => b,
                None => return Err(SaycmdError::InvalidExplain(raw)),
            },
            None => match file.explain {
                Some(b) => b,
                None => false,
            },
        };
        Ok(
            Config {
                explain,
                base_url: without_trailing_slashes(base_url.as_str()),
                model,
                api_key,
                api_key_env,
                timeout: seconds(timeout_seconds),
            },
        )
    }

    /// The settings made from a file that was read (or failed to be) and the
    /// environment: the file's error, or `from_file_and_env`.
    pub fn load(file: Result<FileConfig>, env: &Environment) -> (r: Result<Config>)
        ensures
            match file {
                Err(e) => r matches Err(e2) && e2@ == e@,
                Ok(f) => match config_spec(f@, env@) {
                    Ok(v) => r matches Ok(c) && config_matches(c, v),
                    Err(e) => r matches Err(e2) && e2@ == e,
                },
            },
    {
        match file {
            Ok(f) => Self::from_file_and_env(f, env),
            Err(e) => Err(e),
        }
    }

    /// Refuses settings that name an API key variable when no key was found.
    pub fn require_api_key_if_configured(&self) -> (r: Result<()>)
        ensures
            match r {
                Ok(()) => self.api_key_env@.len() == 0 || self.api_key is Some,
                Err(e) => self.api_key_env@.len() != 0 && self.api_key is None
                    && e@ == ErrorView::MissingApiKey(self.api_key_env@),
            },
    {
        if !self.api_key_env.as_str().is_empty() && self.api_key.is_none() {
            return Err(SaycmdError::MissingApiKey(self.api_key_env.clone()));
        }
        Ok(())
    }
}

/// Environment variables override the file: every setting that its
/// `SAYCMD_*` variable sets to something other than whitespace is taken from
/// there, whatever the file says; and the model is missing exactly when
/// neither names one.
pub proof fn lemma_environment_overrides_file(
    file: FileConfigView,
    env: Seq<(Seq<char>, Seq<char>)>,
)
    ensures
        config_spec(file, env) matches Ok(v) ==> {
            &&& env_value_spec(env, "SAYCMD_MODEL"@) matches Some(m) ==> v.model == m
            &&& env_value_spec(env, "SAYCMD_BASE_URL"@) matches Some(u) ==> v.base_url
                == trim_end_slashes(u)
            &&& env_value_spec(env, "SAYCMD_API_KEY_ENV"@) matches Some(n) ==> v.api_key_env == n
            &&& env_value_spec(env, "SAYCMD_API_KEY"@) matches Some(k) ==> v.api_key == Some(k)
            &&& env_value_spec(env, "SAYCMD_TIMEOUT_SECONDS"@) matches Some(raw) ==> parse_u64_spec(
                raw,
            ) == Some(v.timeout_seconds)
            &&& env_value_spec(env, "SAYCMD_EXPLAIN"@) matches Some(raw) ==> parse_bool_spec(raw)
                == Some(v.explain)
        },
        (config_spec(file, env) == Err::<ConfigView, ErrorView>(ErrorView::MissingModel)) <==> (
        or_else(env_value_spec(env, "SAYCMD_MODEL"@), file.model) is None),
        env_value_spec(env, "SAYCMD_PREFIX"@) matches Some(p) ==> prefix_spec(file, env) == p,
{
}

/// The file fills what the environment leaves unset, and the defaults fill
/// the rest: where no `SAYCMD_*` variable sets a value, the explain flag is
/// the file's (off when absent), the timeout is the file's (30 seconds when
/// absent), the model is the file's, the base URL is the file's or the
/// OpenAI one without trailing slashes, the key variable is the file's or
/// `OPENAI_API_KEY`, and the key is read from the variable so named. The
/// settings load whenever a model is named and the timeout and explain
/// variables, where set, read as a number and a boolean.
pub proof fn lemma_file_fills_unset_settings(
    file: FileConfigView,
    env: Seq<(Seq<char>, Seq<char>)>,
)
    ensures
        config_spec(file, env) matches Ok(v) ==> {
            &&& env_value_spec(env, "SAYCMD_EXPLAIN"@) is None ==> v.explain == (file.explain
                == Some(true))
            &&& env_value_spec(env, "SAYCMD_TIMEOUT_SECONDS"@) is None ==> v.timeout_seconds == (
            match file.timeout_seconds {
                Some(n) => n,
                None => 30u64,
            })
            &&& env_value_spec(env, "SAYCMD_MODEL"@) is None ==> file.model == Some(v.model)
            &&& env_value_spec(env, "SAYCMD_BASE_URL"@) is None ==> v.base_url == trim_end_slashes(
                match file.base_url {
                    Some(u) => u,
                    None => "https://api.openai.com/v1"@,
                },
            )
            &&& env_value_spec(env, "SAYCMD_API_KEY_ENV"@) is None ==> v.api_key_env == (
            match file.api_key_env {
                Some(n) => n,
                None => "OPENAI_API_KEY"@,
            })
            &&& env_value_spec(env, "SAYCMD_API_KEY"@) is None ==> v.api_key == (if v.api_key_env.len()
                == 0 {
                None
            } else {
                env_value_spec(env, v.api_key_env)
            })
        },
        (config_spec(file, env) is Ok) <==> {
            &&& (env_value_spec(env, "SAYCMD_MODEL"@) is Some || file.model is Some)
            &&& env_value_spec(env, "SAYCMD_TIMEOUT_SECONDS"@) matches Some(raw) ==> parse_u64_spec(
                raw,
            ) is Some
            &&& env_value_spec(env, "SAYCMD_EXPLAIN"@) matches Some(raw) ==> parse_bool_spec(raw) is Some
        },
{
}

/// The prefix that the settings give for marking a request is never empty or
/// whitespace only: blank settings fall back to the default. (The integration
/// script likewise ignores a blank `SAYCMD_PREFIX` when it runs.)
pub proof fn lemma_prefix_never_blank(file: FileConfigView, env: Seq<(Seq<char>, Seq<char>)>)
    ensures
        !is_blank(prefix_spec(file, env)),
{
    reveal_strlit("？");
    assert(!crate::text::is_ws(DEFAULT_PREFIX@[0]));
}

} // verus!
