//! The Zsh integration script and the quoting of the configured prefix into it.
use vstd::prelude::*;

use crate::text::{chars_of, string_of};

verus! {

/// Text in the integration script that stands for the quoted prefix.
pub const PREFIX_PLACEHOLDER: &'static str = "__SAYCMD_PREFIX__";

/// The Zsh integration script, with `__SAYCMD_PREFIX__` where the quoted prefix goes.
pub const ZSH_INIT: &'static str = r#"# saycmd zsh integration
if (( ! ${+widgets[saycmd-original-accept-line]} )); then
  zle -A accept-line saycmd-original-accept-line
fi

_saycmd_accept_line() {
  local prefix=__SAYCMD_PREFIX__
  # An override that is empty or only whitespace leaves the configured prefix.
  if [[ "${SAYCMD_PREFIX-}" == *[![:space:]]* ]]; then
    prefix="$SAYCMD_PREFIX"
  fi
  # "??" marks a follow-up, whatever the prefix of a new request.
  local followup_prefix='??'
  local followup=0
  if [[ "$BUFFER" == "$followup_prefix"* ]]; then
    followup=1
    prefix="$followup_prefix"
  elif [[ -z "$prefix" || "$BUFFER" != "$prefix"* ]]; then
    zle saycmd-original-accept-line
    return
  fi

  local request="${BUFFER[${#prefix}+1,-1]}"
  request="${request#"${request%%[![:space:]]*}"}"
  if [[ -z "$request" ]]; then
    zle -M "saycmd: prompt is empty"
    return 1
  fi

  local -a previous_args=()
  if (( followup )); then
    if [[ -z "${_saycmd_last_command-}" ]]; then
      zle -M "saycmd: no previous command; generate one first"
      return 1
    fi
    previous_args+=("--previous-command=$_saycmd_last_command")
    local previous_request
    for previous_request in "${_saycmd_requests[@]}"; do
      previous_args+=("--previous-request=$previous_request")
    done
  fi

  local original="$BUFFER"
  local generated
  local saycmd_tmp
  if ! saycmd_tmp="$(command mktemp -d "${TMPDIR:-/tmp}/saycmd.XXXXXXXXXX")"; then
    zle -M "saycmd: cannot create temporary directory"
    return 1
  fi
  # Suppress background job notifications only for the duration of this widget.
  setopt localoptions no_monitor no_notify
  local saycmd_pid
  local -i saycmd_exit_code=0 frame=1 started=$SECONDS
  local -a frames=('⠋' '⠙' '⠹' '⠸' '⠼' '⠴' '⠦' '⠧' '⠇' '⠏')
  {
    command saycmd translate --zle --shell zsh --cwd "$PWD" "${previous_args[@]}" -- "$request" >"$saycmd_tmp/output" 2>&1 &
    saycmd_pid=$!
    while kill -0 "$saycmd_pid" 2>/dev/null; do
      zle -R "saycmd: ${frames[$frame]} generating… $(( SECONDS - started ))s"
      frame=$(( frame % ${#frames} + 1 ))
      command sleep 0.1
    done
    if wait "$saycmd_pid"; then
      saycmd_exit_code=0
    else
      saycmd_exit_code=$?
    fi
    saycmd_pid=''
    generated="$(<"$saycmd_tmp/output")"
  } always {
    if [[ -n "$saycmd_pid" ]]; then
      kill "$saycmd_pid" 2>/dev/null
      wait "$saycmd_pid" 2>/dev/null
    fi
    command rm -rf -- "$saycmd_tmp"
  }
  if (( saycmd_exit_code != 0 )); then
    BUFFER="$original"
    generated="${generated#saycmd: }"
    zle -M "saycmd: ${generated//$'\n'/ }"
    return $saycmd_exit_code
  fi

  local explanation=""
  if [[ "$generated" == *$'\0'* ]]; then
    explanation="${generated#*$'\0'}"
    generated="${generated%%$'\0'*}"
  fi
  typeset -g _saycmd_last_command="$generated"
  if (( ! followup )); then
    typeset -ga _saycmd_requests=()
  fi
  _saycmd_requests+=("$request")
  # Keep the original request and the seven latest revisions.
  if (( ${#_saycmd_requests} > 8 )); then
    _saycmd_requests=("${_saycmd_requests[1]}" "${(@)_saycmd_requests[-7,-1]}")
  fi
  BUFFER="$generated"
  CURSOR=${#BUFFER}
  zle -M -- "$explanation"
}

zle -N accept-line _saycmd_accept_line
"#;

/// What a single quote inside `s` becomes in a single-quoted shell word:
/// close the quotes, an escaped quote, reopen the quotes.
pub open spec fn quote_piece(c: char) -> Seq<char> {
    if c == '\'' {
        seq!['\'', '\\', '\'', '\'']
    } else {
        seq![c]
    }
}

/// `s` with every single quote written as `'\''`.
pub open spec fn escape_quotes(s: Seq<char>) -> Seq<char>
    decreases s.len(),
{
    if s.len() == 0 {
        Seq::empty()
    } else {
        escape_quotes(s.drop_last()) + quote_piece(s.last())
    }
}

/// `s` as one single-quoted shell word.
pub open spec fn shell_quote(s: Seq<char>) -> Seq<char> {
    seq!['\''] + escape_quotes(s) + seq!['\'']
}

/// `h` with every occurrence of `p`, found from left to right without
/// overlap, replaced by `r` (as `str::replace` does for a non-empty `p`).
pub open spec fn replace_all(h: Seq<char>, p: Seq<char>, r: Seq<char>) -> Seq<char>
    decreases h.len(),
{
    if p.len() == 0 || h.len() < p.len() {
        h
    } else if h.take(p.len() as int) == p {
        r + replace_all(h.skip(p.len() as int), p, r)
    } else {
        seq![h[0]] + replace_all(h.drop_first(), p, r)
    }
}

/// The value a POSIX shell reads from the word `t` made of literal characters,
/// backslash escapes and single-quoted runs; `inside` says whether reading
/// starts within single quotes. `None` when the word ends inside quotes or
/// with a lone backslash.
pub open spec fn shell_word_value(t: Seq<char>, inside: bool) -> Option<Seq<char>>
    decreases t.len(),
{
    if t.len() == 0 {
        if inside {
            None
        } else {
            Some(Seq::empty())
        }
    } else if inside {
        if t[0] == '\'' {
            shell_word_value(t.drop_first(), false)
        } else {
            prepend(seq![t[0]], shell_word_value(t.drop_first(), true))
        }
    } else if t[0] == '\'' {
        shell_word_value(t.drop_first(), true)
    } else if t[0] == '\\' {
        if t.len() < 2 {
            None
        } else {
            prepend(seq![t[1]], shell_word_value(t.skip(2), false))
        }
    } else {
        prepend(seq![t[0]], shell_word_value(t.drop_first(), false))
    }
}

/// `a` in front of the text that `v` holds, if any.
pub open spec fn prepend(a: Seq<char>, v: Option<Seq<char>>) -> Option<Seq<char>> {
    match v {
        Some(x) => Some(a + x),
        None => None,
    }
}

/// `escape_quotes` read from the front: the piece of the first character,
/// then the rest.
proof fn lemma_escape_front(s: Seq<char>)
    requires
        s.len() > 0,
    ensures
        escape_quotes(s) == quote_piece(s[0]) + escape_quotes(s.drop_first()),
    decreases s.len(),
{
    if s.len() == 1 {
        assert(s.drop_last() =~= Seq::<char>::empty());
        assert(s.drop_first() =~= Seq::<char>::empty());
        assert(escape_quotes(s) =~= quote_piece(s[0]) + escape_quotes(s.drop_first()));
    } else {
        lemma_escape_front(s.drop_last());
        assert(s.drop_last().drop_first() =~= s.drop_first().drop_last());
        assert(s.drop_first().last() == s.last());
        assert(s.drop_last()[0] == s[0]);
        assert(escape_quotes(s) =~= quote_piece(s[0]) + escape_quotes(s.drop_first()));
    }
}

/// Inside single quotes, the escaped form of `s` reads back as `s`, followed
/// by whatever follows it.
proof fn lemma_read_escaped(s: Seq<char>, t: Seq<char>)
    ensures
        shell_word_value(escape_quotes(s) + t, true) == prepend(s, shell_word_value(t, true)),
    decreases s.len(),
{
    if s.len() == 0 {
        assert(escape_quotes(s) + t =~= t);
        match shell_word_value(t, true) {
            Some(x) => assert(s + x =~= x),
            None => {},
        }
    } else {
        lemma_escape_front(s);
        lemma_read_escaped(s.drop_first(), t);
        let rest = escape_quotes(s.drop_first()) + t;
        let w = escape_quotes(s) + t;
        assert(w =~= quote_piece(s[0]) + rest);
        assert(s =~= seq![s[0]] + s.drop_first());
        if s[0] == '\'' {
            let w1 = w.drop_first();
            let w2 = w1.skip(2);
            assert(w[0] == '\'');
            assert(w1 =~= seq!['\\', '\'', '\''] + rest);
            assert(w1[0] == '\\' && w1[1] == '\'');
            assert(w2 =~= seq!['\''] + rest);
            assert(w2[0] == '\'');
            assert(w2.drop_first() =~= rest);
            assert(shell_word_value(w2, false) == shell_word_value(rest, true));
            assert(shell_word_value(w1, false) == prepend(seq!['\''], shell_word_value(rest, true)));
            assert(shell_word_value(w, true) == shell_word_value(w1, false));
        } else {
            assert(w[0] == s[0]);
            assert(w.drop_first() =~= rest);
            assert(shell_word_value(w, true) == prepend(seq![s[0]], shell_word_value(rest, true)));
        }
        match shell_word_value(t, true) {
            Some(x) => {
                assert(seq![s[0]] + (s.drop_first() + x) =~= s + x);
            },
            None => {},
        }
    }
}

/// Quoting is faithful: a shell reads the quoted prefix back as exactly the
/// configured prefix, whatever characters it holds.
pub proof fn lemma_quote_reads_back(s: Seq<char>)
    ensures
        shell_word_value(shell_quote(s), false) == Some(s),
{
    let q = shell_quote(s);
    let close = seq!['\''];
    lemma_read_escaped(s, close);
    assert(q[0] == '\'');
    assert(q.drop_first() =~= escape_quotes(s) + close);
    assert(close[0] == '\'');
    assert(close.drop_first() =~= Seq::<char>::empty());
    assert(shell_word_value(close.drop_first(), false) == Some(Seq::<char>::empty()));
    assert(shell_word_value(close, true) == Some(Seq::<char>::empty()));
    assert(s + Seq::<char>::empty() =~= s);
}

/// Whether `p` occurs in `h` at `i`.
fn occurs_at(h: &Vec<char>, i: usize, p: &Vec<char>) -> (b: bool)
    requires
        i + p.len() <= h.len(),
    ensures
        b == (h@.subrange(i as int, i + p.len()) == p@),
{
    let mut k: usize = 0;
    while k < p.len()
        invariant
            i + p.len() <= h.len(),
            k <= p.len(),
            forall|j: int| 0 <= j < k ==> h@[i + j] == p@[j],
        decreases p.len() - k,
    {
        if h[i + k] != p[k] {
            assert(h@.subrange(i as int, i + p.len())[k as int] != p@[k as int]);
            return false;
        }
        k = k + 1;
    }
    assert(h@.subrange(i as int, i + p.len()) =~= p@);
    true
}

/// `h` with every occurrence of `p` replaced by `r`.
pub fn replace_chars(h: &Vec<char>, p: &Vec<char>, r: &Vec<char>) -> (out: Vec<char>)
    requires
        p.len() > 0,
    ensures
        out@ == replace_all(h@, p@, r@),
{
    let mut out: Vec<char> = Vec::new();
    let mut i: usize = 0;
    assert(h@.skip(0) =~= h@);
    while i < h.len()
        invariant
            p.len() > 0,
            i <= h.len(),
            out@ + replace_all(h@.skip(i as int), p@, r@) == replace_all(h@, p@, r@),
        decreases h.len() - i,
    {
        let ghost s = h@.skip(i as int);
        if h.len() - i >= p.len() && occurs_at(h, i, p) {
            assert(s.take(p.len() as int) =~= h@.subrange(i as int, i + p.len()));
            assert(s.skip(p.len() as int) =~= h@.skip(i + p.len()));
            let mut k: usize = 0;
            let ghost before = out@;
            while k < r.len()
                invariant
                    k <= r.len(),
                    out@ == before + r@.take(k as int),
                decreases r.len() - k,
            {
                out.push(r[k]);
                k = k + 1;
                assert(out@ =~= before + r@.take(k as int));
            }
            assert(r@.take(r.len() as int) =~= r@);
            assert(out@ + replace_all(h@.skip(i + p.len()), p@, r@) =~= before + (r@
                + replace_all(s.skip(p.len() as int), p@, r@)));
            i = i + p.len();
        } else {
            assert(s.drop_first() =~= h@.skip(i + 1));
            if h.len() - i >= p.len() {
                assert(s.take(p.len() as int) =~= h@.subrange(i as int, i + p.len()));
            } else {
                assert(s.drop_first().len() < p.len());
            }
            let ghost before = out@;
            out.push(h[i]);
            assert(out@ + replace_all(h@.skip(i + 1), p@, r@) =~= before + (seq![s[0]]
                + replace_all(s.drop_first(), p@, r@)));
            i = i + 1;
        }
    }
    assert(h@.skip(h.len() as int) =~= Seq::<char>::empty());
    assert(out@ + Seq::<char>::empty() =~= out@);
    out
}

/// `s` as one single-quoted shell word.
pub fn quote_for_shell(s: &str) -> (q: Vec<char>)
    ensures
        q@ == shell_quote(s@),
{
    let v = chars_of(s);
    let mut q: Vec<char> = Vec::new();
    q.push('\'');
    let mut i: usize = 0;
    while i < v.len()
        invariant
            i <= v.len(),
            v@ == s@,
            q@ == seq!['\''] + escape_quotes(v@.take(i as int)),
        decreases v.len() - i,
    {
        let c = v[i];
        assert(v@.take(i + 1).drop_last() =~= v@.take(i as int));
        if c == '\'' {
            q.push('\'');
            q.push('\\');
            q.push('\'');
            q.push('\'');
        } else {
            q.push(c);
        }
        i = i + 1;
        assert(q@ =~= seq!['\''] + escape_quotes(v@.take(i as int)));
    }
    assert(v@.take(v.len() as int) =~= v@);
    q.push('\'');
    q
}

/// The integration script with the prefix quoted as literal shell data in
/// place of the placeholder.
pub fn zsh_init(prefix: &str) -> (script: String)
    ensures
        script@ == replace_all(ZSH_INIT@, PREFIX_PLACEHOLDER@, shell_quote(prefix@)),
{
    let quoted = quote_for_shell(prefix);
    let template = chars_of(ZSH_INIT);
    let placeholder = chars_of(PREFIX_PLACEHOLDER);
    proof {
        reveal_strlit("__SAYCMD_PREFIX__");
    }
    let out = replace_chars(&template, &placeholder, &quoted);
    string_of(&out)
}

} // verus!
