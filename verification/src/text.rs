//! Character-level text operations shared by the library: whitespace classes,
//! trimming, whitespace collapsing, and the conversions between `&str`,
//! `String` and `Vec<char>` on which the rest of the crate computes.
use vstd::prelude::*;
use vstd::utf8::{encode_scalar, encode_utf8};

verus! {

/// The Unicode `White_Space` property, which `char::is_whitespace` tests.
pub open spec fn is_ws(c: char) -> bool {
    let n = c as u32;
    ||| (0x09 <= n && n <= 0x0D)
    ||| n == 0x20
    ||| n == 0x85
    ||| n == 0xA0
    ||| n == 0x1680
    ||| (0x2000 <= n && n <= 0x200A)
    ||| n == 0x2028
    ||| n == 0x2029
    ||| n == 0x202F
    ||| n == 0x205F
    ||| n == 0x3000
}

/// The Unicode general category `Cc`, which `char::is_control` tests.
pub open spec fn is_control(c: char) -> bool {
    let n = c as u32;
    n <= 0x1F || (0x7F <= n && n <= 0x9F)
}

/// Whether `c` is whitespace in the sense of `is_ws`.
pub fn is_whitespace(c: char) -> (b: bool)
    ensures
        b == is_ws(c),
{
    let n = c as u32;
    (0x09 <= n && n <= 0x0D) || n == 0x20 || n == 0x85 || n == 0xA0 || n == 0x1680 || (0x2000
        <= n && n <= 0x200A) || n == 0x2028 || n == 0x2029 || n == 0x202F || n == 0x205F || n
        == 0x3000
}

/// Whether `c` is a control character in the sense of `is_control`.
pub fn is_control_char(c: char) -> (b: bool)
    ensures
        b == is_control(c),
{
    let n = c as u32;
    n <= 0x1F || (0x7F <= n && n <= 0x9F)
}

/// `s` without its leading whitespace.
pub open spec fn trim_start(s: Seq<char>) -> Seq<char>
    decreases s.len(),
{
    if s.len() > 0 && is_ws(s[0]) {
        trim_start(s.drop_first())
    } else {
        s
    }
}

/// `s` without its trailing whitespace.
pub open spec fn trim_end(s: Seq<char>) -> Seq<char>
    decreases s.len(),
{
    if s.len() > 0 && is_ws(s.last()) {
        trim_end(s.drop_last())
    } else {
        s
    }
}

/// `s` without leading and trailing whitespace, as `str::trim` gives it.
pub open spec fn trim(s: Seq<char>) -> Seq<char> {
    trim_end(trim_start(s))
}

/// Whether `s` holds nothing but whitespace (the empty text included).
pub open spec fn is_blank(s: Seq<char>) -> bool {
    forall|i: int| 0 <= i < s.len() ==> is_ws(#[trigger] s[i])
}

/// Number of bytes of the UTF-8 encoding of `s`, as `str::len` counts it.
pub open spec fn utf8_len(s: Seq<char>) -> nat {
    encode_utf8(s).len()
}

/// The state of a left-to-right scan that collapses whitespace: the text
/// produced so far, and whether whitespace has been seen since the last word
/// character.
pub open spec fn collapse_scan(s: Seq<char>) -> (Seq<char>, bool)
    decreases s.len(),
{
    if s.len() == 0 {
        (Seq::empty(), false)
    } else {
        let (out, gap) = collapse_scan(s.drop_last());
        let c = s.last();
        if is_ws(c) {
            (out, true)
        } else if gap && out.len() > 0 {
            (out.push(' ').push(c), false)
        } else {
            (out.push(c), false)
        }
    }
}

/// The whitespace-separated words of `s` joined by single spaces, as
/// `s.split_whitespace().collect::<Vec<_>>().join(" ")` gives it.
pub open spec fn collapse_ws(s: Seq<char>) -> Seq<char> {
    collapse_scan(s).0
}

/// Text in which whitespace occurs only as single spaces between other characters.
pub open spec fn is_single_spaced(t: Seq<char>) -> bool {
    &&& forall|i: int| 0 <= i < t.len() && is_ws(#[trigger] t[i]) ==> t[i] == ' '
    &&& t.len() > 0 ==> !is_ws(t[0]) && !is_ws(t.last())
    &&& forall|i: int| 0 <= i < t.len() - 1 && is_ws(#[trigger] t[i]) ==> !is_ws(t[i + 1])
}

/// The characters of `s` that are not whitespace, in order.
pub open spec fn non_ws(s: Seq<char>) -> Seq<char> {
    s.filter(word_char())
}

/// The test that keeps a character in `non_ws`.
pub open spec fn word_char() -> spec_fn(char) -> bool {
    |c: char| !is_ws(c)
}

/// The characters of a string slice.
pub fn chars_of(s: &str) -> (v: Vec<char>)
    ensures
        v@ == s@,
{
    let mut v: Vec<char> = Vec::new();
    for c in it: s.chars()
        invariant
            v@ == it.seq().take(it.index() as int),
            it.seq() == s@,
    {
        v.push(c);
        assert(v@ =~= it.seq().take(it.index() + 1));
    }
    assert(v@ =~= s@);
    v
}

/// Appends `c` to `s` (`String::push`).
#[verifier::external_body]
fn push_char(s: &mut String, c: char)
    ensures
        final(s)@ == old(s)@.push(c),
{
    s.push(c);
}

/// The string made of the characters `v`.
pub fn string_of(v: &Vec<char>) -> (s: String)
    ensures
        s@ == v@,
{
    let mut s = String::new();
    let mut i: usize = 0;
    while i < v.len()
        invariant
            i <= v.len(),
            s@ == v@.take(i as int),
        decreases v.len() - i,
    {
        push_char(&mut s, v[i]);
        i = i + 1;
        assert(s@ =~= v@.take(i as int));
    }
    assert(v@.take(v.len() as int) =~= v@);
    s
}

/// Index of the first character of `v` from `from` on that is not whitespace,
/// or `v.len()` when there is none.
fn skip_ws_forward(v: &Vec<char>, from: usize) -> (i: usize)
    requires
        from <= v.len(),
    ensures
        from <= i <= v.len(),
        forall|k: int| from <= k < i ==> is_ws(#[trigger] v@[k]),
        i < v.len() ==> !is_ws(v@[i as int]),
{
    let mut i = from;
    while i < v.len() && is_whitespace(v[i])
        invariant
            from <= i <= v.len(),
            forall|k: int| from <= k < i ==> is_ws(#[trigger] v@[k]),
        decreases v.len() - i,
    {
        i = i + 1;
    }
    i
}

/// Dropping a whitespace prefix does not change `trim_start`.
proof fn lemma_trim_start_skip(s: Seq<char>, i: int)
    requires
        0 <= i <= s.len(),
        forall|k: int| 0 <= k < i ==> is_ws(#[trigger] s[k]),
    ensures
        trim_start(s) == trim_start(s.skip(i)),
    decreases i,
{
    if i > 0 {
        assert(s.drop_first().skip(i - 1) =~= s.skip(i));
        assert forall|k: int| 0 <= k < i - 1 implies is_ws(#[trigger] s.drop_first()[k]) by {
            assert(s.drop_first()[k] == s[k + 1]);
        }
        assert(is_ws(s[0]));
        lemma_trim_start_skip(s.drop_first(), i - 1);
    } else {
        assert(s.skip(0) =~= s);
    }
}

/// Dropping a whitespace suffix does not change `trim_end`.
proof fn lemma_trim_end_take(s: Seq<char>, j: int)
    requires
        0 <= j <= s.len(),
        forall|k: int| j <= k < s.len() ==> is_ws(#[trigger] s[k]),
    ensures
        trim_end(s) == trim_end(s.take(j)),
    decreases s.len() - j,
{
    if j < s.len() {
        assert(s.drop_last().take(j) =~= s.take(j));
        lemma_trim_end_take(s.drop_last(), j);
    } else {
        assert(s.take(j) =~= s);
    }
}

/// `trim_start` of a text that starts with a non-whitespace character is the text.
proof fn lemma_trim_start_stops(s: Seq<char>)
    requires
        s.len() == 0 || !is_ws(s[0]),
    ensures
        trim_start(s) == s,
{
}

/// `trim_end` of a text that ends with a non-whitespace character is the text.
proof fn lemma_trim_end_stops(s: Seq<char>)
    requires
        s.len() == 0 || !is_ws(s.last()),
    ensures
        trim_end(s) == s,
{
}

/// Start and end of the trimmed part of `v`.
pub fn trim_bounds(v: &Vec<char>) -> (r: (usize, usize))
    ensures
        r.0 <= r.1 <= v.len(),
        v@.subrange(r.0 as int, r.1 as int) == trim(v@),
{
    let start = skip_ws_forward(v, 0);
    let mut end = v.len();
    while end > start && is_whitespace(v[end - 1])
        invariant
            start <= end <= v.len(),
            forall|k: int| end <= k < v.len() ==> is_ws(#[trigger] v@[k]),
        decreases end,
    {
        end = end - 1;
    }
    proof {
        let s = v@;
        lemma_trim_start_skip(s, start as int);
        lemma_trim_start_stops(s.skip(start as int));
        let t = s.skip(start as int);
        assert forall|k: int| end - start <= k < t.len() implies is_ws(#[trigger] t[k]) by {
            assert(t[k] == s[k + start]);
        }
        lemma_trim_end_take(t, end - start);
        assert(t.take(end - start) =~= s.subrange(start as int, end as int));
        let u = s.subrange(start as int, end as int);
        if u.len() > 0 {
            assert(u.last() == s[end - 1]);
        }
        lemma_trim_end_stops(u);
    }
    (start, end)
}

/// `v` without leading and trailing whitespace.
pub fn trim_chars(v: &Vec<char>) -> (t: Vec<char>)
    ensures
        t@ == trim(v@),
{
    let (start, end) = trim_bounds(v);
    slice_chars(v, start, end)
}

/// The characters of `v` from `start` up to `end`.
pub fn slice_chars(v: &Vec<char>, start: usize, end: usize) -> (t: Vec<char>)
    requires
        start <= end <= v.len(),
    ensures
        t@ == v@.subrange(start as int, end as int),
{
    let mut t: Vec<char> = Vec::new();
    let mut i = start;
    while i < end
        invariant
            start <= i <= end <= v.len(),
            t@ == v@.subrange(start as int, i as int),
        decreases end - i,
    {
        t.push(v[i]);
        i = i + 1;
        assert(t@ =~= v@.subrange(start as int, i as int));
    }
    t
}

/// Whether `v` holds nothing but whitespace.
pub fn blank_chars(v: &Vec<char>) -> (b: bool)
    ensures
        b == is_blank(v@),
        b == (trim(v@).len() == 0),
{
    let i = skip_ws_forward(v, 0);
    proof {
        lemma_blank_iff_trim_empty(v@);
    }
    i == v.len()
}

/// A text is blank exactly when trimming leaves nothing.
pub proof fn lemma_blank_iff_trim_empty(s: Seq<char>)
    ensures
        is_blank(s) == (trim(s).len() == 0),
    decreases s.len(),
{
    if s.len() > 0 {
        if is_ws(s[0]) {
            lemma_blank_iff_trim_empty(s.drop_first());
            if is_blank(s.drop_first()) {
                assert forall|i: int| 0 <= i < s.len() implies is_ws(#[trigger] s[i]) by {
                    if i > 0 {
                        assert(s[i] == s.drop_first()[i - 1]);
                    }
                }
            } else {
                let k = choose|k: int| 0 <= k < s.drop_first().len() && !is_ws(s.drop_first()[k]);
                assert(!is_ws(s[k + 1]));
            }
        } else {
            lemma_trim_start_stops(s);
            lemma_trim_end_nonempty(s);
        }
    }
}

/// Trimming the end of a text that starts with a non-whitespace character
/// leaves that character.
proof fn lemma_trim_end_nonempty(s: Seq<char>)
    requires
        s.len() > 0,
        !is_ws(s[0]),
    ensures
        trim_end(s).len() > 0,
    decreases s.len(),
{
    if is_ws(s.last()) {
        assert(s.len() > 1);
        assert(s.drop_last()[0] == s[0]);
        lemma_trim_end_nonempty(s.drop_last());
    }
}

/// The words of `v` joined by single spaces.
pub fn collapse_whitespace(v: &Vec<char>) -> (t: Vec<char>)
    ensures
        t@ == collapse_ws(v@),
{
    let mut out: Vec<char> = Vec::new();
    let mut gap = false;
    let mut i: usize = 0;
    while i < v.len()
        invariant
            i <= v.len(),
            collapse_scan(v@.take(i as int)) == (out@, gap),
        decreases v.len() - i,
    {
        let c = v[i];
        assert(v@.take(i as int + 1).drop_last() =~= v@.take(i as int));
        if is_whitespace(c) {
            gap = true;
        } else {
            if gap && out.len() > 0 {
                out.push(' ');
            }
            out.push(c);
            gap = false;
        }
        i = i + 1;
    }
    assert(v@.take(v.len() as int) =~= v@);
    out
}

/// Whatever the input, collapsing whitespace gives single-spaced text that
/// keeps every other character, in order.
pub proof fn lemma_collapse_single_spaced(s: Seq<char>)
    ensures
        is_single_spaced(collapse_ws(s)),
        non_ws(collapse_ws(s)) == non_ws(s),
{
    lemma_collapse_scan(s);
}

/// The scan keeps single spacing and the non-whitespace characters.
proof fn lemma_collapse_scan(s: Seq<char>)
    ensures
        is_single_spaced(collapse_scan(s).0),
        non_ws(collapse_scan(s).0) == non_ws(s),
        collapse_scan(s).1 ==> s.len() > 0,
    decreases s.len(),
{
    if s.len() == 0 {
        assert(non_ws(Seq::<char>::empty()) =~= Seq::<char>::empty()) by {
            reveal_with_fuel(Seq::filter, 1);
        }
    } else {
        lemma_collapse_scan(s.drop_last());
        let (out, gap) = collapse_scan(s.drop_last());
        let c = s.last();
        let f = word_char();
        assert(s.drop_last().push(c) =~= s);
        s.drop_last().lemma_filter_push(c, f);
        if is_ws(c) {
        } else if gap && out.len() > 0 {
            let o1 = out.push(' ');
            out.lemma_filter_push(' ', f);
            o1.lemma_filter_push(c, f);
            let o2 = o1.push(c);
            assert forall|i: int| 0 <= i < o2.len() - 1 && is_ws(#[trigger] o2[i]) implies !is_ws(
                o2[i + 1],
            ) by {
                if i < out.len() - 1 {
                    assert(o2[i] == out[i] && o2[i + 1] == out[i + 1]);
                }
            }
            assert forall|i: int| 0 <= i < o2.len() && is_ws(#[trigger] o2[i]) implies o2[i]
                == ' ' by {
                if i < out.len() {
                    assert(o2[i] == out[i]);
                }
            }
            assert(o2[0] == out[0]);
        } else {
            out.lemma_filter_push(c, f);
            let o2 = out.push(c);
            assert forall|i: int| 0 <= i < o2.len() - 1 && is_ws(#[trigger] o2[i]) implies !is_ws(
                o2[i + 1],
            ) by {
                if i < out.len() - 1 {
                    assert(o2[i] == out[i] && o2[i + 1] == out[i + 1]);
                }
            }
            assert forall|i: int| 0 <= i < o2.len() && is_ws(#[trigger] o2[i]) implies o2[i]
                == ' ' by {
                if i < out.len() {
                    assert(o2[i] == out[i]);
                }
            }
            if out.len() > 0 {
                assert(o2[0] == out[0]);
            }
        }
    }
}

/// Number of bytes of the UTF-8 encoding of `c`.
fn utf8_width(c: char) -> (w: usize)
    ensures
        w == encode_scalar(c as u32).len(),
        1 <= w <= 4,
{
    proof {
        vstd::utf8::char_is_scalar(c);
    }
    let n = c as u32;
    if n <= 0x7F {
        1
    } else if n <= 0x7FF {
        2
    } else if n <= 0xFFFF {
        3
    } else {
        4
    }
}

/// Whether the UTF-8 encoding of `v` is longer than `limit` bytes.
pub fn utf8_len_exceeds(v: &Vec<char>, limit: usize) -> (b: bool)
    ensures
        b == (utf8_len(v@) > limit),
{
    let mut i = v.len();
    let mut total: usize = 0;
    assert(v@.skip(v.len() as int) =~= Seq::<char>::empty());
    while i > 0
        invariant
            i <= v.len(),
            total <= limit,
            total == utf8_len(v@.skip(i as int)),
        decreases i,
    {
        i = i - 1;
        let w = utf8_width(v[i]);
        assert(v@.skip(i as int).drop_first() =~= v@.skip(i + 1));
        assert(v@.skip(i as int)[0] == v@[i as int]);
        if w > limit - total {
            proof {
                lemma_utf8_len_suffix(v@, i as int);
            }
            return true;
        }
        total = total + w;
    }
    assert(v@.skip(0) =~= v@);
    false
}

/// A text is at least as long in UTF-8 as any of its suffixes.
proof fn lemma_utf8_len_suffix(s: Seq<char>, i: int)
    requires
        0 <= i <= s.len(),
    ensures
        utf8_len(s) >= utf8_len(s.skip(i)),
    decreases i,
{
    if i > 0 {
        assert(s.drop_first().skip(i - 1) =~= s.skip(i));
        lemma_utf8_len_suffix(s.drop_first(), i - 1);
    } else {
        assert(s.skip(0) =~= s);
    }
}

/// Whether `v` holds the character `c`.
pub fn contains_char(v: &Vec<char>, c: char) -> (b: bool)
    ensures
        b == v@.contains(c),
{
    let mut i: usize = 0;
    while i < v.len()
        invariant
            i <= v.len(),
            forall|k: int| 0 <= k < i ==> v@[k] != c,
        decreases v.len() - i,
    {
        if v[i] == c {
            return true;
        }
        i = i + 1;
    }
    false
}

/// Whether `a` and `b` hold the same characters.
pub fn chars_eq(a: &Vec<char>, b: &Vec<char>) -> (r: bool)
    ensures
        r == (a@ == b@),
{
    if a.len() != b.len() {
        return false;
    }
    let mut i: usize = 0;
    while i < a.len()
        invariant
            a.len() == b.len(),
            i <= a.len(),
            forall|k: int| 0 <= k < i ==> a@[k] == b@[k],
        decreases a.len() - i,
    {
        if a[i] != b[i] {
            return false;
        }
        i = i + 1;
    }
    assert(a@ =~= b@);
    true
}

/// `a` followed by `b`.
pub fn concat_chars(a: &Vec<char>, b: &Vec<char>) -> (r: Vec<char>)
    ensures
        r@ == a@ + b@,
{
    let mut r = slice_chars(a, 0, a.len());
    assert(a@.subrange(0, a.len() as int) =~= a@);
    let mut i: usize = 0;
    while i < b.len()
        invariant
            i <= b.len(),
            r@ == a@ + b@.take(i as int),
        decreases b.len() - i,
    {
        r.push(b[i]);
        i = i + 1;
        assert(r@ =~= a@ + b@.take(i as int));
    }
    assert(b@.take(b.len() as int) =~= b@);
    r
}

/// The words of `s` joined by single spaces.
pub fn collapse_text(s: &str) -> (r: String)
    ensures
        r@ == collapse_ws(s@),
{
    string_of(&collapse_whitespace(&chars_of(s)))
}

/// Trimming keeps only characters of the text: whatever holds of every
/// character of `s` holds of every character of `trim(s)`, and the result is
/// no longer.
pub proof fn lemma_trim_keeps(s: Seq<char>, p: spec_fn(char) -> bool)
    requires
        forall|i: int| 0 <= i < s.len() ==> p(#[trigger] s[i]),
    ensures
        forall|i: int| 0 <= i < trim(s).len() ==> p(#[trigger] trim(s)[i]),
        trim(s).len() <= s.len(),
{
    lemma_trim_start_keeps(s, p);
    lemma_trim_end_keeps(trim_start(s), p);
}

proof fn lemma_trim_start_keeps(s: Seq<char>, p: spec_fn(char) -> bool)
    requires
        forall|i: int| 0 <= i < s.len() ==> p(#[trigger] s[i]),
    ensures
        forall|i: int| 0 <= i < trim_start(s).len() ==> p(#[trigger] trim_start(s)[i]),
        trim_start(s).len() <= s.len(),
    decreases s.len(),
{
    if s.len() > 0 && is_ws(s[0]) {
        assert forall|i: int| 0 <= i < s.drop_first().len() implies p(
            #[trigger] s.drop_first()[i],
        ) by {
            assert(s.drop_first()[i] == s[i + 1]);
        }
        lemma_trim_start_keeps(s.drop_first(), p);
    }
}

proof fn lemma_trim_end_keeps(s: Seq<char>, p: spec_fn(char) -> bool)
    requires
        forall|i: int| 0 <= i < s.len() ==> p(#[trigger] s[i]),
    ensures
        forall|i: int| 0 <= i < trim_end(s).len() ==> p(#[trigger] trim_end(s)[i]),
        trim_end(s).len() <= s.len(),
    decreases s.len(),
{
    if s.len() > 0 && is_ws(s.last()) {
        assert forall|i: int| 0 <= i < s.drop_last().len() implies p(
            #[trigger] s.drop_last()[i],
        ) by {
            assert(s.drop_last()[i] == s[i]);
        }
        lemma_trim_end_keeps(s.drop_last(), p);
    }
}

/// A trimmed text that is not empty starts and ends with a character other
/// than whitespace.
pub proof fn lemma_trim_edges(s: Seq<char>)
    ensures
        trim(s).len() > 0 ==> !is_ws(trim(s)[0]) && !is_ws(trim(s).last()),
{
    lemma_trim_start_edge(s);
    lemma_trim_end_edges(trim_start(s));
}

proof fn lemma_trim_start_edge(s: Seq<char>)
    ensures
        trim_start(s).len() > 0 ==> !is_ws(trim_start(s)[0]),
    decreases s.len(),
{
    if s.len() > 0 && is_ws(s[0]) {
        lemma_trim_start_edge(s.drop_first());
    }
}

proof fn lemma_trim_end_edges(s: Seq<char>)
    requires
        s.len() > 0 ==> !is_ws(s[0]),
    ensures
        trim_end(s).len() > 0 ==> !is_ws(trim_end(s)[0]) && !is_ws(trim_end(s).last()),
    decreases s.len(),
{
    if s.len() > 0 && is_ws(s.last()) {
        if s.len() > 1 {
            assert(s.drop_last()[0] == s[0]);
        }
        lemma_trim_end_edges(s.drop_last());
    }
}

/// A text that starts and ends with characters other than whitespace is its
/// own trim.
pub proof fn lemma_trim_unpadded(s: Seq<char>)
    requires
        s.len() > 0 ==> !is_ws(s[0]) && !is_ws(s.last()),
    ensures
        trim(s) == s,
{
    lemma_trim_start_stops(s);
    lemma_trim_end_stops(s);
}

/// Whitespace added at the end does not change the trimmed text.
pub proof fn lemma_trim_push_ws(s: Seq<char>, c: char)
    requires
        is_ws(c),
    ensures
        trim(s.push(c)) == trim(s),
    decreases s.len(),
{
    let t = s.push(c);
    if s.len() == 0 {
        assert(t.drop_first() =~= Seq::<char>::empty());
        assert(trim_start(t) == trim_start(t.drop_first()));
    } else if is_ws(s[0]) {
        assert(t[0] == s[0]);
        assert(t.drop_first() =~= s.drop_first().push(c));
        lemma_trim_push_ws(s.drop_first(), c);
    } else {
        assert(t[0] == s[0]);
        assert(t.drop_last() =~= s);
    }
}

/// Where the trimmed text starts: `trim_start(s)` is `s` from there on.
pub proof fn trim_start_offset(s: Seq<char>) -> (k: int)
    ensures
        0 <= k <= s.len(),
        trim_start(s) == s.skip(k),
    decreases s.len(),
{
    if s.len() > 0 && is_ws(s[0]) {
        let k = trim_start_offset(s.drop_first());
        assert(s.drop_first().skip(k) =~= s.skip(k + 1));
        k + 1
    } else {
        assert(s.skip(0) =~= s);
        0
    }
}

/// Where the text without its trailing whitespace ends.
pub proof fn trim_end_length(s: Seq<char>) -> (m: int)
    ensures
        0 <= m <= s.len(),
        trim_end(s) == s.take(m),
    decreases s.len(),
{
    if s.len() > 0 && is_ws(s.last()) {
        let m = trim_end_length(s.drop_last());
        assert(s.drop_last().take(m) =~= s.take(m));
        m
    } else {
        assert(s.take(s.len() as int) =~= s);
        s.len() as int
    }
}

/// The trimmed text is a contiguous part of the text: `s` from `a` up to `b`.
pub proof fn trim_range(s: Seq<char>) -> (r: (int, int))
    ensures
        0 <= r.0 <= r.1 <= s.len(),
        trim(s) == s.subrange(r.0, r.1),
{
    let k = trim_start_offset(s);
    let m = trim_end_length(s.skip(k));
    assert(s.skip(k).take(m) =~= s.subrange(k, k + m));
    (k, k + m)
}

} // verus!
