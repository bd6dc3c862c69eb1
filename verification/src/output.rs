//! Reading the model's reply: the JSON object with the command and, on
//! request, its explanation.
use vstd::prelude::*;

use crate::error::{ErrorView, Result, SaycmdError};
use crate::text::{
    blank_chars, chars_eq, chars_of, contains_char, is_control, is_control_char, string_of, trim,
    trim_chars, utf8_len, utf8_len_exceeds,
};
use crate::MAX_COMMAND_BYTES;

verus! {

/// The command the model generated and, when asked for, its explanation.
#[derive(Debug)]
pub struct CommandOutput {
    pub command: String,
    pub explanation: Option<String>,
}

impl View for CommandOutput {
    type V = (Seq<char>, Option<Seq<char>>);

    open spec fn view(&self) -> (Seq<char>, Option<Seq<char>>) {
        (self.command@, opt_view(self.explanation))
    }
}

/// An optional string taken by its characters.
pub open spec fn opt_view(o: Option<String>) -> Option<Seq<char>> {
    match o {
        Some(s) => Some(s@),
        None => None,
    }
}

/// The fields of a JSON object whose values are strings or `null`, in the
/// order in which the decoder hands them out.
pub type Fields = Seq<(Seq<char>, Option<Seq<char>>)>;

/// The outcome of decoding `text` as a JSON object whose values are all
/// strings or `null` (`serde_json::from_str` into a
/// `BTreeMap<String, Option<String>>`): its fields, or the decoder's message.
pub uninterp spec fn json_string_fields(text: Seq<char>) -> core::result::Result<Fields, Seq<char>>;

/// A decoded object taken by its characters.
pub open spec fn decoded_view(
    d: core::result::Result<Vec<(String, Option<String>)>, String>,
) -> core::result::Result<Fields, Seq<char>> {
    match d {
        Ok(v) => Ok(v.deep_view()),
        Err(m) => Err(m@),
    }
}

/// Decodes `text` as a JSON object whose values are strings or `null`.
/// Calls `serde_json::from_str` into a `BTreeMap<String, Option<String>>`;
/// claims only that the outcome is a function of `text`, named
/// `json_string_fields`. The map's entries come out in key order.
#[verifier::external_body]
fn decode_string_fields(text: &str) -> (r: core::result::Result<Vec<(String, Option<String>)>, String>)
    ensures
        decoded_view(r) == json_string_fields(text@),
{
    match serde_json::from_str::<std::collections::BTreeMap<String, Option<String>>>(text) {
        Ok(map) => Ok(map.into_iter().collect()),
        Err(error) => Err(error.to_string()),
    }
}

/// The outcome of decoding `text` as a JSON array whose items are all
/// strings or `null` (`serde_json::from_str` into a `Vec<Option<String>>`):
/// its items, or the decoder's message.
pub uninterp spec fn json_string_list(text: Seq<char>) -> core::result::Result<
    Seq<Option<Seq<char>>>,
    Seq<char>,
>;

/// Decodes `text` as a JSON array whose items are strings or `null`. Calls
/// `serde_json::from_str` into a `Vec<Option<String>>`; claims only that the
/// outcome is a function of `text`, named `json_string_list`.
#[verifier::external_body]
fn decode_string_list(text: &str) -> (r: core::result::Result<Vec<Option<String>>, String>)
    ensures
        match r {
            Ok(v) => json_string_list(text@) == Ok::<Seq<Option<Seq<char>>>, Seq<char>>(
                v.deep_view(),
            ),
            Err(m) => json_string_list(text@) == Err::<Seq<Option<Seq<char>>>, Seq<char>>(m@),
        },
{
    match serde_json::from_str::<Vec<Option<String>>>(text) {
        Ok(items) => Ok(items),
        Err(error) => Err(error.to_string()),
    }
}

/// The command object read from its array form: the first item is the
/// command, a string; the second, if there is one, the explanation, a string
/// or `null`; there is no third.
pub open spec fn command_list(items: Seq<Option<Seq<char>>>) -> core::result::Result<
    (Seq<char>, Option<Seq<char>>),
    Seq<char>,
> {
    if items.len() == 0 {
        Err("invalid length 0, expected struct CommandOutput with 2 elements"@)
    } else {
        match items[0] {
            None => Err("invalid type: null, expected a string"@),
            Some(c) => if items.len() > 2 {
                Err("trailing characters"@)
            } else {
                Ok((c, if items.len() == 2 { items[1] } else { None }))
            },
        }
    }
}

/// The three backticks that open and close a Markdown code fence.
pub open spec fn fence() -> Seq<char> {
    seq!['`', '`', '`']
}

/// The only language tag a fence may carry.
pub open spec fn json_tag() -> Seq<char> {
    seq!['j', 's', 'o', 'n']
}

/// Position of the first `c` in `s`.
pub open spec fn index_of(s: Seq<char>, c: char) -> Option<int>
    decreases s.len(),
{
    if s.len() == 0 {
        None
    } else if s[0] == c {
        Some(0)
    } else {
        match index_of(s.drop_first(), c) {
            Some(i) => Some(i + 1),
            None => None,
        }
    }
}

/// The content of a JSON code fence: when `c` opens with three backticks, a
/// language tag that is empty or `json` (blanks around it allowed) and a
/// newline, and ends with three backticks, the text between, trimmed;
/// otherwise `c` itself.
pub open spec fn strip_fence_spec(c: Seq<char>) -> Seq<char> {
    if c.len() < 3 || c.take(3) != fence() {
        c
    } else {
        let rest = c.skip(3);
        match index_of(rest, '\n') {
            None => c,
            Some(nl) => {
                let lang = trim(rest.take(nl));
                let body = rest.skip(nl + 1);
                if lang.len() != 0 && lang != json_tag() {
                    c
                } else if body.len() >= 3 && body.skip(body.len() - 3) == fence() {
                    trim(body.take(body.len() - 3))
                } else {
                    c
                }
            }
        }
    }
}

/// The first key that is neither `command` nor `explanation`.
pub open spec fn unknown_field(fields: Fields) -> Option<Seq<char>>
    decreases fields.len(),
{
    if fields.len() == 0 {
        None
    } else if fields[0].0 != "command"@ && fields[0].0 != "explanation"@ {
        Some(fields[0].0)
    } else {
        unknown_field(fields.drop_first())
    }
}

/// The value of the first field named `key`.
pub open spec fn field(fields: Fields, key: Seq<char>) -> Option<Option<Seq<char>>>
    decreases fields.len(),
{
    if fields.len() == 0 {
        None
    } else if fields[0].0 == key {
        Some(fields[0].1)
    } else {
        field(fields.drop_first(), key)
    }
}

/// Message for a field that the command object does not have.
pub open spec fn unknown_field_message(key: Seq<char>) -> Seq<char> {
    "unknown field `"@ + key + "`, expected `command` or `explanation`"@
}

/// The command object read from its fields: it has no field but `command`
/// and `explanation`, `command` is a string, and `explanation` is a string,
/// `null` or absent.
pub open spec fn command_object(fields: Fields) -> core::result::Result<
    (Seq<char>, Option<Seq<char>>),
    Seq<char>,
> {
    match unknown_field(fields) {
        Some(k) => Err(unknown_field_message(k)),
        None => match field(fields, "command"@) {
            None => Err("missing field `command`"@),
            Some(None) => Err("invalid type: null, expected a string"@),
            Some(Some(c)) => Ok(
                (
                    c,
                    match field(fields, "explanation"@) {
                        Some(Some(e)) => Some(e),
                        _ => None,
                    },
                ),
            ),
        },
    }
}

/// Most characters an explanation keeps.
pub const MAX_EXPLANATION_CHARS: usize = 4000;

/// Characters an explanation keeps: all but control characters, except line
/// feeds and tabs.
pub open spec fn kept_in_explanation() -> spec_fn(char) -> bool {
    |c: char| !is_control(c) || c == '\n' || c == '\t'
}

/// At most the first `n` characters of `s`.
pub open spec fn at_most(s: Seq<char>, n: nat) -> Seq<char> {
    if s.len() <= n {
        s
    } else {
        s.take(n as int)
    }
}

/// The explanation as shown: control characters removed, cut to its first
/// `MAX_EXPLANATION_CHARS` characters, then trimmed.
pub open spec fn clean_explanation(e: Seq<char>) -> Seq<char> {
    trim(at_most(e.filter(kept_in_explanation()), MAX_EXPLANATION_CHARS as nat))
}

/// What reading the model's reply gives once its command and explanation
/// have been read (or the message saying why they could not be): the trimmed
/// command, and the cleaned explanation when `explain` is set.
pub open spec fn output_from_command_spec(
    command: core::result::Result<(Seq<char>, Option<Seq<char>>), Seq<char>>,
    explain: bool,
) -> core::result::Result<(Seq<char>, Option<Seq<char>>), ErrorView> {
    match command {
        Err(m) => Err(ErrorView::InvalidModelOutput(m)),
        Ok((raw, explanation)) => {
            let command = trim(raw);
            if command.len() == 0 {
                Err(ErrorView::InvalidModelOutput("command field is empty"@))
            } else if utf8_len(command) > MAX_COMMAND_BYTES {
                Err(ErrorView::CommandTooLarge(MAX_COMMAND_BYTES))
            } else if command.contains('\0') {
                Err(ErrorView::NulByte)
            } else if !explain {
                Ok((command, None))
            } else {
                match explanation {
                    None => Err(ErrorView::InvalidModelOutput("explanation field is missing"@)),
                    Some(e) => if clean_explanation(e).len() == 0 {
                        Err(ErrorView::InvalidModelOutput("explanation field is empty"@))
                    } else {
                        Ok((command, Some(clean_explanation(e))))
                    },
                }
            }
        },
    }
}

/// Whether the payload holds a JSON array rather than an object. The payload
/// is trimmed, so its first character is its first non-whitespace one, on
/// which the decoder chooses between the two forms of a command object.
pub open spec fn opens_array(t: Seq<char>) -> bool {
    t.len() > 0 && t[0] == '['
}

/// The command and explanation that the payload `t` holds: a JSON object
/// with fields `command` and `explanation`, or a JSON array of the command
/// and, optionally, the explanation.
pub open spec fn command_from_payload(t: Seq<char>) -> core::result::Result<
    (Seq<char>, Option<Seq<char>>),
    Seq<char>,
> {
    if opens_array(t) {
        match json_string_list(t) {
            Ok(items) => command_list(items),
            Err(m) => Err(m),
        }
    } else {
        match json_string_fields(t) {
            Ok(fields) => command_object(fields),
            Err(m) => Err(m),
        }
    }
}

/// What reading the reply `content` gives.
pub open spec fn parse_output_spec(content: Seq<char>, explain: bool) -> core::result::Result<
    (Seq<char>, Option<Seq<char>>),
    ErrorView,
> {
    output_from_command_spec(command_from_payload(strip_fence_spec(trim(content))), explain)
}

/// An output result taken by its view.
pub open spec fn output_result_view(r: Result<CommandOutput>) -> core::result::Result<
    (Seq<char>, Option<Seq<char>>),
    ErrorView,
> {
    match r {
        Ok(o) => Ok(o@),
        Err(e) => Err(e@),
    }
}

/// Position of the first `c` in `v` at or after `from`.
fn find_char(v: &Vec<char>, from: usize, c: char) -> (r: Option<usize>)
    requires
        from <= v.len(),
    ensures
        r matches Some(i) ==> from <= i < v.len() && index_of(v@.skip(from as int), c) == Some(
            i - from,
        ),
        r is None ==> index_of(v@.skip(from as int), c) is None,
{
    let mut i = from;
    while i < v.len()
        invariant
            from <= i <= v.len(),
            forall|k: int| from <= k < i ==> v@[k] != c,
        decreases v.len() - i,
    {
        if v[i] == c {
            proof {
                lemma_index_of_skip(v@, from as int, i as int, c);
            }
            return Some(i);
        }
        i = i + 1;
    }
    proof {
        lemma_index_of_none(v@, from as int, c);
    }
    None
}

/// The first `c` at or after `from` stands at `i` when nothing between is `c`.
proof fn lemma_index_of_skip(s: Seq<char>, from: int, i: int, c: char)
    requires
        0 <= from <= i < s.len(),
        s[i] == c,
        forall|k: int| from <= k < i ==> s[k] != c,
    ensures
        index_of(s.skip(from), c) == Some(i - from),
    decreases i - from,
{
    let t = s.skip(from);
    assert(t.drop_first() =~= s.skip(from + 1));
    if from < i {
        assert(t[0] == s[from]);
        lemma_index_of_skip(s, from + 1, i, c);
    } else {
        assert(t[0] == s[i]);
    }
}

/// There is no `c` at or after `from` when none of the positions holds it.
proof fn lemma_index_of_none(s: Seq<char>, from: int, c: char)
    requires
        0 <= from <= s.len(),
        forall|k: int| from <= k < s.len() ==> s[k] != c,
    ensures
        index_of(s.skip(from), c) is None,
    decreases s.len() - from,
{
    let t = s.skip(from);
    if from < s.len() {
        assert(t.drop_first() =~= s.skip(from + 1));
        assert(t[0] == s[from]);
        lemma_index_of_none(s, from + 1, c);
    }
}

/// `c` without the JSON code fence around it, if it has one.
pub fn strip_fence(c: &Vec<char>) -> (r: Vec<char>)
    ensures
        r@ == strip_fence_spec(c@),
{
    let fence_chars = chars_of("```");
    let json_chars = chars_of("json");
    proof {
        reveal_strlit("```");
        reveal_strlit("json");
        assert(fence_chars@ =~= fence());
        assert(json_chars@ =~= json_tag());
    }
    if c.len() < 3 {
        return crate::text::slice_chars(c, 0, c.len());
    }
    let head = crate::text::slice_chars(c, 0, 3);
    assert(c@.subrange(0, 3) =~= c@.take(3));
    assert(c@.subrange(0, c.len() as int) =~= c@);
    if !chars_eq(&head, &fence_chars) {
        return crate::text::slice_chars(c, 0, c.len());
    }
    let ghost rest = c@.skip(3);
    match find_char(c, 3, '\n') {
        None => crate::text::slice_chars(c, 0, c.len()),
        Some(nl) => {
            assert(index_of(rest, '\n') == Some(nl - 3));
            let tag = crate::text::slice_chars(c, 3, nl);
            assert(c@.subrange(3, nl as int) =~= rest.take(nl - 3));
            let lang = trim_chars(&tag);
            if lang.len() != 0 && !chars_eq(&lang, &json_chars) {
                return crate::text::slice_chars(c, 0, c.len());
            }
            let body_start = nl + 1;
            let ghost body = rest.skip(nl - 3 + 1);
            assert(body =~= c@.skip(body_start as int));
            if c.len() - body_start >= 3 {
                let tail = crate::text::slice_chars(c, c.len() - 3, c.len());
                assert(c@.subrange(c.len() - 3, c.len() as int) =~= body.skip(body.len() - 3));
                if chars_eq(&tail, &fence_chars) {
                    let inner = crate::text::slice_chars(c, body_start, c.len() - 3);
                    assert(c@.subrange(body_start as int, c.len() - 3) =~= body.take(
                        body.len() - 3,
                    ));
                    return trim_chars(&inner);
                }
            }
            crate::text::slice_chars(c, 0, c.len())
        },
    }
}

/// Whether `k` names one of the command object's fields.
fn is_known_field(k: &String) -> (b: bool)
    ensures
        b == (k@ == "command"@ || k@ == "explanation"@),
{
    let command = "command".to_owned();
    let explanation = "explanation".to_owned();
    *k == command || *k == explanation
}

/// Index of the first field with an unknown key.
fn find_unknown_field(fields: &Vec<(String, Option<String>)>) -> (r: Option<usize>)
    ensures
        match r {
            Some(i) => i < fields.len() && unknown_field(fields.deep_view()) == Some(
                fields@[i as int].0@,
            ),
            None => unknown_field(fields.deep_view()) is None,
        },
{
    let ghost d = fields.deep_view();
    let mut i: usize = 0;
    assert(d.skip(0) =~= d);
    while i < fields.len()
        invariant
            i <= fields.len(),
            d == fields.deep_view(),
            unknown_field(d) == unknown_field(d.skip(i as int)),
        decreases fields.len() - i,
    {
        let ghost t = d.skip(i as int);
        assert(t[0] == d[i as int]);
        assert(d[i as int].0 == fields@[i as int].0@);
        if !is_known_field(&fields[i].0) {
            return Some(i);
        }
        assert(t.drop_first() =~= d.skip(i + 1));
        i = i + 1;
    }
    assert(d.skip(i as int).len() == 0);
    None
}

/// Index of the first field named `key`.
fn find_field(fields: &Vec<(String, Option<String>)>, key: &String) -> (r: Option<usize>)
    ensures
        match r {
            Some(i) => i < fields.len() && field(fields.deep_view(), key@) == Some(
                fields.deep_view()[i as int].1,
            ),
            None => field(fields.deep_view(), key@) is None,
        },
{
    let ghost d = fields.deep_view();
    let mut i: usize = 0;
    assert(d.skip(0) =~= d);
    while i < fields.len()
        invariant
            i <= fields.len(),
            d == fields.deep_view(),
            field(d, key@) == field(d.skip(i as int), key@),
        decreases fields.len() - i,
    {
        let ghost t = d.skip(i as int);
        assert(t[0] == d[i as int]);
        assert(d[i as int].0 == fields@[i as int].0@);
        if fields[i].0 == *key {
            return Some(i);
        }
        assert(t.drop_first() =~= d.skip(i + 1));
        i = i + 1;
    }
    assert(d.skip(i as int).len() == 0);
    None
}

/// The command and explanation of a decoded object, or the message saying
/// why it is no command object.
pub fn read_command_object(fields: &Vec<(String, Option<String>)>) -> (r: core::result::Result<
    (String, Option<String>),
    String,
>)
    ensures
        match r {
            Ok((c, e)) => command_object(fields.deep_view()) == Ok::<
                (Seq<char>, Option<Seq<char>>),
                Seq<char>,
            >((c@, opt_view(e))),
            Err(m) => command_object(fields.deep_view()) == Err::<
                (Seq<char>, Option<Seq<char>>),
                Seq<char>,
            >(m@),
        },
{
    if let Some(i) = find_unknown_field(fields) {
        let before = chars_of("unknown field `");
        let key = chars_of(fields[i].0.as_str());
        let after = chars_of("`, expected `command` or `explanation`");
        let message = crate::text::concat_chars(&crate::text::concat_chars(&before, &key), &after);
        return Err(string_of(&message));
    }
    let command_key = "command".to_owned();
    let explanation_key = "explanation".to_owned();
    match find_field(fields, &command_key) {
        None => Err("missing field `command`".to_owned()),
        Some(i) => match &fields[i].1 {
            None => Err("invalid type: null, expected a string".to_owned()),
            Some(c) => {
                let explanation = match find_field(fields, &explanation_key) {
                    Some(j) => fields[j].1.clone(),
                    None => None,
                };
                Ok((c.clone(), explanation))
            },
        },
    }
}

/// The command and explanation of a decoded array, or the message saying
/// why it is no command object.
pub fn read_command_list(items: &Vec<Option<String>>) -> (r: core::result::Result<
    (String, Option<String>),
    String,
>)
    ensures
        command_view(r) == command_list(items.deep_view()),
{
    if items.len() == 0 {
        return Err("invalid length 0, expected struct CommandOutput with 2 elements".to_owned());
    }
    assert(items.deep_view()[0] == items@[0].deep_view());
    match &items[0] {
        None => Err("invalid type: null, expected a string".to_owned()),
        Some(c) => {
            if items.len() > 2 {
                return Err("trailing characters".to_owned());
            }
            let explanation = if items.len() == 2 {
                assert(items.deep_view()[1] == items@[1].deep_view());
                items[1].clone()
            } else {
                None
            };
            Ok((c.clone(), explanation))
        },
    }
}

/// The explanation with control characters other than line feeds and tabs
/// removed, cut to its first `MAX_EXPLANATION_CHARS` characters.
fn keep_explanation_chars(e: &Vec<char>) -> (r: Vec<char>)
    ensures
        r@ == at_most(e@.filter(kept_in_explanation()), MAX_EXPLANATION_CHARS as nat),
{
    let mut r: Vec<char> = Vec::new();
    let mut i: usize = 0;
    assert(e@.take(0) =~= Seq::<char>::empty());
    assert(Seq::<char>::empty().filter(kept_in_explanation()) =~= Seq::<char>::empty()) by {
        reveal_with_fuel(Seq::filter, 1);
    }
    while i < e.len()
        invariant
            i <= e.len(),
            r@ == at_most(e@.take(i as int).filter(kept_in_explanation()), MAX_EXPLANATION_CHARS as nat),
        decreases e.len() - i,
    {
        let c = e[i];
        let ghost before = e@.take(i as int).filter(kept_in_explanation());
        assert(e@.take(i + 1) =~= e@.take(i as int).push(c));
        proof {
            e@.take(i as int).lemma_filter_push(c, kept_in_explanation());
        }
        if !is_control_char(c) || c == '\n' || c == '\t' {
            if r.len() < MAX_EXPLANATION_CHARS {
                r.push(c);
                assert(r@ =~= before.push(c));
            } else {
                assert(before.push(c).take(MAX_EXPLANATION_CHARS as int) =~= before.take(
                    MAX_EXPLANATION_CHARS as int,
                ));
            }
        }
        i = i + 1;
    }
    assert(e@.take(e.len() as int) =~= e@);
    r
}

/// A command and explanation as the contracts speak of them.
pub open spec fn command_view(c: core::result::Result<(String, Option<String>), String>) -> core::result::Result<
    (Seq<char>, Option<Seq<char>>),
    Seq<char>,
> {
    match c {
        Ok((command, explanation)) => Ok((command@, opt_view(explanation))),
        Err(m) => Err(m@),
    }
}

/// The output made of a command and explanation read from the reply (or the
/// message saying why they could not be read): the trimmed command, checked,
/// and the cleaned explanation when `explain` is set.
pub fn output_from_command(
    command: core::result::Result<(String, Option<String>), String>,
    explain: bool,
) -> (r: Result<CommandOutput>)
    ensures
        output_result_view(r) == output_from_command_spec(command_view(command), explain),
{
    let (raw, explanation) = match command {
        Err(message) => return Err(SaycmdError::InvalidModelOutput(message)),
        Ok(pair) => pair,
    };
    let command = trim_chars(&chars_of(raw.as_str()));
    if command.len() == 0 {
        return Err(SaycmdError::InvalidModelOutput("command field is empty".to_owned()));
    }
    if utf8_len_exceeds(&command, MAX_COMMAND_BYTES) {
        return Err(SaycmdError::CommandTooLarge(MAX_COMMAND_BYTES));
    }
    if contains_char(&command, '\0') {
        return Err(SaycmdError::NulByte);
    }
    if !explain {
        return Ok(CommandOutput { command: string_of(&command), explanation: None });
    }
    match explanation {
        None => Err(SaycmdError::InvalidModelOutput("explanation field is missing".to_owned())),
        Some(text) => {
            let kept = keep_explanation_chars(&chars_of(text.as_str()));
            if blank_chars(&kept) {
                Err(SaycmdError::InvalidModelOutput("explanation field is empty".to_owned()))
            } else {
                let cleaned = trim_chars(&kept);
                Ok(
                    CommandOutput {
                        command: string_of(&command),
                        explanation: Some(string_of(&cleaned)),
                    },
                )
            }
        },
    }
}

/// Reads the model's reply: a JSON command object (or its array form),
/// possibly inside a `json` code fence, whose command is non-empty, small enough and free of
/// NUL bytes; with `explain`, it must also carry a non-empty explanation.
pub fn parse_output(content: &str, explain: bool) -> (r: Result<CommandOutput>)
    ensures
        output_result_view(r) == parse_output_spec(content@, explain),
{
    let payload = strip_fence(&trim_chars(&chars_of(content)));
    let text = string_of(&payload);
    let command = if payload.len() > 0 && payload[0] == '[' {
        match decode_string_list(text.as_str()) {
            Ok(items) => read_command_list(&items),
            Err(message) => Err(message),
        }
    } else {
        match decode_string_fields(text.as_str()) {
            Ok(fields) => read_command_object(&fields),
            Err(message) => Err(message),
        }
    };
    output_from_command(command, explain)
}

/// Reads the command alone from the model's reply.
pub fn parse_command(content: &str) -> (r: Result<String>)
    ensures
        match r {
            Ok(c) => parse_output_spec(content@, false) == Ok::<
                (Seq<char>, Option<Seq<char>>),
                ErrorView,
            >((c@, None)),
            Err(e) => parse_output_spec(content@, false) == Err::<
                (Seq<char>, Option<Seq<char>>),
                ErrorView,
            >(e@),
        },
{
    match parse_output(content, false) {
        Ok(output) => Ok(output.command),
        Err(e) => Err(e),
    }
}

/// The output as the shell integration reads it: the command, a NUL byte,
/// then the explanation (nothing when there is none).
pub open spec fn zle_text_spec(o: (Seq<char>, Option<Seq<char>>)) -> Seq<char> {
    o.0 + seq!['\0'] + match o.1 {
        Some(e) => e,
        None => Seq::empty(),
    }
}

impl CommandOutput {
    /// The output as the shell integration reads it.
    pub fn zle_text(&self) -> (t: String)
        ensures
            t@ == zle_text_spec(self@),
    {
        let mut v = chars_of(self.command.as_str());
        v.push('\0');
        let rest = match &self.explanation {
            Some(e) => chars_of(e.as_str()),
            None => Vec::new(),
        };
        string_of(&crate::text::concat_chars(&v, &rest))
    }
}

/// The text that `bytes` encode, with every invalid sequence replaced by
/// U+FFFD (`String::from_utf8_lossy`).
pub uninterp spec fn lossy_utf8(bytes: Seq<u8>) -> Seq<char>;

/// Calls `String::from_utf8_lossy`; claims that the result is a function of
/// the bytes, named `lossy_utf8`, and that valid UTF-8 is decoded as it is.
#[verifier::external_body]
fn lossy_text(bytes: &[u8]) -> (s: String)
    ensures
        s@ == lossy_utf8(bytes@),
        vstd::utf8::valid_utf8(bytes@) ==> s@ == vstd::utf8::decode_utf8(bytes@),
{
    String::from_utf8_lossy(bytes).into_owned()
}

/// The verdict of a syntax check of a command in `shell` that finished with
/// `success` and wrote `stderr`: accepted, or refused with the shell's
/// message on one line.
pub fn syntax_verdict(shell: &str, success: bool, stderr: &[u8]) -> (r: Result<()>)
    ensures
        success ==> r is Ok,
        !success ==> (r matches Err(e) && e@ == (ErrorView::InvalidSyntax {
            shell: shell@,
            message: crate::text::collapse_ws(lossy_utf8(stderr@)),
        })),
{
    if success {
        return Ok(());
    }
    let message = crate::text::collapse_text(lossy_text(stderr).as_str());
    Err(SaycmdError::InvalidSyntax { shell: shell.to_owned(), message })
}

/// Whatever the reply, an output that reading it yields is checked: the
/// command is non-empty, carries no surrounding whitespace, fits in
/// `MAX_COMMAND_BYTES` and holds no NUL byte; an explanation is there exactly
/// when one was asked for, and it is non-empty, at most
/// `MAX_EXPLANATION_CHARS` long and free of control characters other than
/// line feeds and tabs.
pub proof fn lemma_output_is_checked(content: Seq<char>, explain: bool)
    ensures
        parse_output_spec(content, explain) matches Ok((command, explanation)) ==> {
            &&& command.len() > 0
            &&& !crate::text::is_ws(command[0]) && !crate::text::is_ws(command.last())
            &&& utf8_len(command) <= MAX_COMMAND_BYTES
            &&& !command.contains('\0')
            &&& (explanation is Some <==> explain)
            &&& explanation matches Some(e) ==> {
                &&& e.len() > 0
                &&& e.len() <= MAX_EXPLANATION_CHARS
                &&& forall|i: int| 0 <= i < e.len() ==> (!is_control(#[trigger] e[i]) || e[i] == '\n'
                    || e[i] == '\t')
            }
        },
{
    let d = command_from_payload(strip_fence_spec(trim(content)));
    {
        if let Ok((raw, explanation)) = d {
            crate::text::lemma_trim_edges(raw);
            if let Some(e) = explanation {
                let kept = e.filter(kept_in_explanation());
                let cut = at_most(kept, MAX_EXPLANATION_CHARS as nat);
                let p = kept_in_explanation();
                assert forall|i: int| 0 <= i < kept.len() implies p(#[trigger] kept[i]) by {
                    e.lemma_filter_pred(p, i);
                }
                assert forall|i: int| 0 <= i < cut.len() implies p(#[trigger] cut[i]) by {
                    if kept.len() > MAX_EXPLANATION_CHARS {
                        assert(cut[i] == kept[i]);
                    }
                }
                crate::text::lemma_trim_keeps(cut, p);
                assert forall|i: int| 0 <= i < clean_explanation(e).len() implies (!is_control(
                    #[trigger] clean_explanation(e)[i],
                ) || clean_explanation(e)[i] == '\n' || clean_explanation(e)[i] == '\t') by {
                    assert(p(clean_explanation(e)[i]));
                }
            }
        }
    }
}

/// In `a`, then `x`, then `b`, the first `x` is the one after `a` when `a`
/// holds none.
proof fn lemma_index_of_after(a: Seq<char>, x: char, b: Seq<char>)
    requires
        !a.contains(x),
    ensures
        index_of(a + seq![x] + b, x) == Some(a.len() as int),
    decreases a.len(),
{
    let s = a + seq![x] + b;
    if a.len() == 0 {
        assert(s[0] == x);
    } else {
        assert(s[0] == a[0]);
        assert(a[0] != x);
        assert(!a.drop_first().contains(x)) by {
            if a.drop_first().contains(x) {
                let k = choose|k: int| 0 <= k < a.drop_first().len() && a.drop_first()[k] == x;
                assert(a[k + 1] == x);
            }
        }
        assert(s.drop_first() =~= a.drop_first() + seq![x] + b);
        lemma_index_of_after(a.drop_first(), x, b);
    }
}

/// The shell integration reads back what was generated: in the text handed
/// to it, the first NUL byte follows the command, so the command is the text
/// before it and the explanation (empty when there is none) the text after.
pub proof fn lemma_zle_text_reads_back(content: Seq<char>, explain: bool)
    ensures
        parse_output_spec(content, explain) matches Ok(o) ==> {
            let t = zle_text_spec(o);
            &&& index_of(t, '\0') == Some(o.0.len() as int)
            &&& t.take(o.0.len() as int) == o.0
            &&& t.skip(o.0.len() as int + 1) == match o.1 {
                Some(e) => e,
                None => Seq::<char>::empty(),
            }
        },
{
    lemma_output_is_checked(content, explain);
    if let Ok(o) = parse_output_spec(content, explain) {
        let rest = match o.1 {
            Some(e) => e,
            None => Seq::<char>::empty(),
        };
        lemma_index_of_after(o.0, '\0', rest);
        let t = zle_text_spec(o);
        assert(t =~= o.0 + seq!['\0'] + rest);
        assert(t.take(o.0.len() as int) =~= o.0);
        assert(t.skip(o.0.len() as int + 1) =~= rest);
    }
}

/// A reply wrapped in a code fence, tagged `json` or untagged, reads as the
/// reply itself (unless the reply is fenced already).
pub proof fn lemma_fenced_reply_reads_as_reply(reply: Seq<char>, tagged: bool, explain: bool)
    requires
        !(trim(reply).len() >= 3 && trim(reply).take(3) == fence()),
    ensures
        parse_output_spec(
            fence() + (if tagged {
                json_tag()
            } else {
                Seq::<char>::empty()
            }) + seq!['\n'] + reply + seq!['\n'] + fence(),
            explain,
        ) == parse_output_spec(reply, explain),
{
    let tag = if tagged {
        json_tag()
    } else {
        Seq::<char>::empty()
    };
    let tail = reply + seq!['\n'] + fence();
    let c = fence() + tag + seq!['\n'] + reply + seq!['\n'] + fence();
    assert(c[0] == '`');
    assert(c.last() == '`');
    crate::text::lemma_trim_unpadded(c);
    assert(c.take(3) =~= fence());
    let rest = c.skip(3);
    assert(rest =~= tag + seq!['\n'] + tail);
    assert(!tag.contains('\n')) by {
        if tag.contains('\n') {
            let k = choose|k: int| 0 <= k < tag.len() && tag[k] == '\n';
            assert(tag[k] != '\n');
        }
    }
    lemma_index_of_after(tag, '\n', tail);
    assert(rest.take(tag.len() as int) =~= tag);
    if tagged {
        assert(json_tag()[0] == 'j' && json_tag().last() == 'n');
    }
    crate::text::lemma_trim_unpadded(tag);
    let body = rest.skip(tag.len() as int + 1);
    assert(body =~= tail);
    assert(body.skip(body.len() - 3) =~= fence());
    assert(body.take(body.len() - 3) =~= reply.push('\n'));
    crate::text::lemma_trim_push_ws(reply, '\n');
    assert(strip_fence_spec(c) == trim(reply));
}

/// A fenced reply reads as the reply itself also where the closing fence
/// follows the reply on its last line, with no line break before it.
pub proof fn lemma_fence_without_final_newline(reply: Seq<char>, tagged: bool, explain: bool)
    requires
        !(trim(reply).len() >= 3 && trim(reply).take(3) == fence()),
    ensures
        parse_output_spec(
            fence() + (if tagged {
                json_tag()
            } else {
                Seq::<char>::empty()
            }) + seq!['\n'] + reply + fence(),
            explain,
        ) == parse_output_spec(reply, explain),
{
    let tag = if tagged {
        json_tag()
    } else {
        Seq::<char>::empty()
    };
    let tail = reply + fence();
    let c = fence() + tag + seq!['\n'] + reply + fence();
    assert(c[0] == '`');
    assert(c.last() == '`');
    crate::text::lemma_trim_unpadded(c);
    assert(c.take(3) =~= fence());
    let rest = c.skip(3);
    assert(rest =~= tag + seq!['\n'] + tail);
    assert(!tag.contains('\n')) by {
        if tag.contains('\n') {
            let k = choose|k: int| 0 <= k < tag.len() && tag[k] == '\n';
            assert(tag[k] != '\n');
        }
    }
    lemma_index_of_after(tag, '\n', tail);
    assert(rest.take(tag.len() as int) =~= tag);
    if tagged {
        assert(json_tag()[0] == 'j' && json_tag().last() == 'n');
    }
    crate::text::lemma_trim_unpadded(tag);
    let body = rest.skip(tag.len() as int + 1);
    assert(body =~= tail);
    assert(body.skip(body.len() - 3) =~= fence());
    assert(body.take(body.len() - 3) =~= reply);
    assert(strip_fence_spec(c) == trim(reply));
}

/// Filtering keeps a text whole when every character passes.
proof fn lemma_filter_keeps_all(s: Seq<char>, p: spec_fn(char) -> bool)
    requires
        forall|i: int| 0 <= i < s.len() ==> p(#[trigger] s[i]),
    ensures
        s.filter(p) == s,
    decreases s.len(),
{
    if s.len() == 0 {
        assert(s.filter(p) =~= s) by {
            reveal_with_fuel(Seq::filter, 1);
        }
    } else {
        let init = s.drop_last();
        assert forall|i: int| 0 <= i < init.len() implies p(#[trigger] init[i]) by {
            assert(init[i] == s[i]);
        }
        lemma_filter_keeps_all(init, p);
        init.lemma_filter_push(s.last(), p);
        assert(init.push(s.last()) =~= s);
    }
}

/// The explanation shown keeps, in order, every character of the model's
/// explanation that is not a control character, and its line feeds and
/// tabs; it drops the other control characters, then keeps at most the
/// first 4000 characters and trims them.
pub proof fn lemma_explanation_keeps_non_control(e: Seq<char>)
    ensures
        clean_explanation(e) == trim(
            at_most(e.filter(|c: char| !is_control(c) || c == '\n' || c == '\t'), 4000nat),
        ),
{
    assert(kept_in_explanation() =~= (|c: char| !is_control(c) || c == '\n' || c == '\t'));
}

/// When the explanation is asked for, one that holds no control characters
/// but line feeds and tabs and is at most 4000 characters long comes back
/// as the model wrote it, trimmed; with a valid command, reading the reply
/// then succeeds.
pub proof fn lemma_plain_explanation_kept(content: Seq<char>, raw: Seq<char>, e: Seq<char>)
    requires
        command_from_payload(strip_fence_spec(trim(content))) == Ok::<
            (Seq<char>, Option<Seq<char>>),
            Seq<char>,
        >((raw, Some(e))),
        trim(raw).len() > 0,
        utf8_len(trim(raw)) <= MAX_COMMAND_BYTES,
        !trim(raw).contains('\0'),
        forall|i: int| 0 <= i < e.len() ==> (!is_control(#[trigger] e[i]) || e[i] == '\n' || e[i]
            == '\t'),
        e.len() <= 4000,
        trim(e).len() > 0,
    ensures
        parse_output_spec(content, true) == Ok::<(Seq<char>, Option<Seq<char>>), ErrorView>(
            (trim(raw), Some(trim(e))),
        ),
{
    let p = kept_in_explanation();
    assert forall|i: int| 0 <= i < e.len() implies p(#[trigger] e[i]) by {}
    lemma_filter_keeps_all(e, p);
    assert(at_most(e, MAX_EXPLANATION_CHARS as nat) == e);
    assert(clean_explanation(e) == trim(e));
}

/// Stripping a code fence only ever cuts the reply: what remains is a
/// contiguous part of it.
pub proof fn lemma_strip_fence_within(c: Seq<char>)
    ensures
        exists|i: int, j: int|
            0 <= i <= j <= c.len() && strip_fence_spec(c) == #[trigger] c.subrange(i, j),
{
    let r = strip_fence_spec(c);
    if r == c {
        assert(c.subrange(0, c.len() as int) =~= c);
    } else {
        let rest = c.skip(3);
        let nl = index_of(rest, '\n')->0;
        lemma_index_of_bound(rest, '\n');
        let body = rest.skip(nl + 1);
        let inner = body.take(body.len() - 3);
        assert(inner =~= c.subrange(3 + nl + 1, c.len() - 3));
        let (a, b) = crate::text::trim_range(inner);
        assert(inner.subrange(a, b) =~= c.subrange(3 + nl + 1 + a, 3 + nl + 1 + b));
    }
}

/// A position that `index_of` finds lies within the text.
proof fn lemma_index_of_bound(s: Seq<char>, x: char)
    ensures
        index_of(s, x) matches Some(i) ==> 0 <= i < s.len() && s[i] == x,
    decreases s.len(),
{
    if s.len() > 0 && s[0] != x {
        lemma_index_of_bound(s.drop_first(), x);
    }
}

} // verus!
