//! The structured text encoding of jobs and memory histories, written and
//! read by this crate itself: a JSON-shaped grammar over character
//! sequences. Serializers and parsers are verified against one spec-level
//! grammar, and parsing a serialized value is proved to give the value back.

use vstd::prelude::*;

use crate::strutil::is_ws;

verus! {

// ---------- escaping ----------
/// How one character is written inside a quoted string.
pub open spec fn escape_char(c: char) -> Seq<char> {
    if c == '"' {
        seq!['\\', '"']
    } else if c == '\\' {
        seq!['\\', '\\']
    } else if c == '\n' {
        seq!['\\', 'n']
    } else if c == '\t' {
        seq!['\\', 't']
    } else if c == '\r' {
        seq!['\\', 'r']
    } else {
        seq![c]
    }
}

/// The character an escape code stands for.
pub open spec fn unescape_char(c: char) -> Option<char> {
    if c == '"' {
        Some('"')
    } else if c == '\\' {
        Some('\\')
    } else if c == 'n' {
        Some('\n')
    } else if c == 't' {
        Some('\t')
    } else if c == 'r' {
        Some('\r')
    } else if c == '/' {
        Some('/')
    } else {
        None
    }
}

/// The body of a quoted string: every character escaped as needed.
pub open spec fn esc(s: Seq<char>) -> Seq<char>
    decreases s.len(),
{
    if s.len() == 0 {
        Seq::empty()
    } else {
        escape_char(s[0]) + esc(s.drop_first())
    }
}

/// A quoted string.
pub open spec fn ser_str(s: Seq<char>) -> Seq<char> {
    seq!['"'] + esc(s) + seq!['"']
}

/// An optional quoted string: absent values are written `null`.
pub open spec fn ser_opt_str(o: Option<Seq<char>>) -> Seq<char> {
    match o {
        Some(s) => ser_str(s),
        None => "null"@,
    }
}

pub proof fn lemma_esc_snoc(a: Seq<char>, c: char)
    ensures
        esc(a.push(c)) == esc(a) + escape_char(c),
    decreases a.len(),
{
    assert(esc(Seq::<char>::empty()) =~= Seq::<char>::empty());
    if a.len() == 0 {
        assert(a.push(c).drop_first() =~= Seq::<char>::empty());
        assert(esc(a.push(c)) =~= esc(a) + escape_char(c));
    } else {
        assert(a.push(c).drop_first() =~= a.drop_first().push(c));
        lemma_esc_snoc(a.drop_first(), c);
        assert(esc(a.push(c)) =~= esc(a) + escape_char(c));
    }
}

// ---------- the spec-level reader ----------
/// First position at or after `i` holding a non-whitespace character.
pub open spec fn skip_ws_spec(s: Seq<char>, i: int) -> int
    decreases s.len() - i,
{
    if 0 <= i < s.len() && is_ws(s[i]) {
        skip_ws_spec(s, i + 1)
    } else {
        i
    }
}

pub proof fn lemma_skip_ws_bounds(s: Seq<char>, i: int)
    requires
        0 <= i <= s.len(),
    ensures
        i <= skip_ws_spec(s, i) <= s.len(),
    decreases s.len() - i,
{
    if 0 <= i < s.len() && is_ws(s[i]) {
        lemma_skip_ws_bounds(s, i + 1);
    }
}

/// Reads a quoted string's body from just after the opening quote up to and
/// past the closing quote. Yields the decoded characters and the position
/// after the closing quote.
pub open spec fn parse_str_body_spec(s: Seq<char>, i: int) -> Option<(Seq<char>, int)>
    decreases s.len() - i,
{
    if !(0 <= i < s.len()) {
        None
    } else if s[i] == '"' {
        Some((Seq::empty(), i + 1))
    } else if s[i] == '\\' {
        if i + 1 < s.len() {
            match unescape_char(s[i + 1]) {
                Some(c) => match parse_str_body_spec(s, i + 2) {
                    Some((rest, j)) => Some((seq![c] + rest, j)),
                    None => None,
                },
                None => None,
            }
        } else {
            None
        }
    } else {
        match parse_str_body_spec(s, i + 1) {
            Some((rest, j)) => Some((seq![s[i]] + rest, j)),
            None => None,
        }
    }
}

/// Reads a quoted string, opening quote included.
pub open spec fn parse_string_spec(s: Seq<char>, i: int) -> Option<(Seq<char>, int)> {
    if 0 <= i < s.len() && s[i] == '"' {
        parse_str_body_spec(s, i + 1)
    } else {
        None
    }
}

pub proof fn lemma_parse_str_body_progress(s: Seq<char>, i: int)
    ensures
        match parse_str_body_spec(s, i) {
            Some((_v, j)) => i < j <= s.len(),
            None => true,
        },
    decreases s.len() - i,
{
    if 0 <= i < s.len() {
        if s[i] == '"' {
        } else if s[i] == '\\' {
            if i + 1 < s.len() {
                lemma_parse_str_body_progress(s, i + 2);
            }
        } else {
            lemma_parse_str_body_progress(s, i + 1);
        }
    }
}

/// Reading back an escaped string body: from position `i`, if the input
/// continues with `esc(orig)` and a closing quote, the parse succeeds and
/// decodes exactly `orig`.
pub proof fn lemma_parse_esc(s: Seq<char>, i: int, orig: Seq<char>)
    requires
        0 <= i,
        i + esc(orig).len() + 1 <= s.len(),
        s.subrange(i, i + esc(orig).len() + 1) == esc(orig) + seq!['"'],
    ensures
        parse_str_body_spec(s, i) == Some((orig, i + esc(orig).len() + 1)),
    decreases orig.len(),
{
    let pre = esc(orig) + seq!['"'];
    assert forall|k: int| 0 <= k < pre.len() implies s[i + k] == pre[k] by {
        assert(s.subrange(i, i + pre.len())[k] == s[i + k]);
    }
    if orig.len() == 0 {
        assert(esc(orig) =~= Seq::<char>::empty());
        assert(s[i] == pre[0]);
        assert(s[i] == '"');
    } else {
        let c = orig[0];
        let ec = escape_char(c);
        let orig2 = orig.drop_first();
        assert(esc(orig) == ec + esc(orig2));
        let pre2 = esc(orig2) + seq!['"'];
        assert(pre =~= ec + pre2);
        assert forall|k: int| 0 <= k < ec.len() implies s[i + k] == ec[k] by {
            assert(s[i + k] == pre[k]);
            assert(pre[k] == ec[k]);
        }
        let i2 = i + ec.len();
        assert forall|k: int|
            0 <= k < pre2.len() implies #[trigger] s.subrange(i2, i2 + pre2.len())[k]
            == pre2[k] by {
            assert(s.subrange(i2, i2 + pre2.len())[k] == s[i2 + k]);
            assert(s[i2 + k] == pre[ec.len() + k]);
        }
        assert(s.subrange(i2, i2 + pre2.len()) =~= pre2);
        lemma_parse_esc(s, i2, orig2);
        if c == '"' || c == '\\' || c == '\n' || c == '\t' || c == '\r' {
            // two-character escape: backslash plus code
            assert(s[i] == '\\');
            assert(unescape_char(s[i + 1]) == Some(c));
            assert(seq![c] + orig2 =~= orig);
        } else {
            assert(ec[0] == c);
            assert(s[i + 0] == ec[0]);
            assert(s[i] == c);
            assert(s[i] != '"' && s[i] != '\\');
            assert(seq![c] + orig2 =~= orig);
        }
    }
}

// ---------- slice algebra helpers ----------
/// If `whole` sits in `s` at `i` and `part` sits in `whole` at `off`, then
/// `part` sits in `s` at `i + off`.
pub proof fn lemma_slice_of_slice(s: Seq<char>, i: int, whole: Seq<char>, off: int, part: Seq<char>)
    requires
        0 <= i,
        i + whole.len() <= s.len(),
        s.subrange(i, i + whole.len()) == whole,
        0 <= off,
        off + part.len() <= whole.len(),
        whole.subrange(off, off + part.len()) == part,
    ensures
        s.subrange(i + off, i + off + part.len()) == part,
{
    assert forall|k: int|
        0 <= k < part.len() implies #[trigger] s.subrange(i + off, i + off + part.len())[k]
        == part[k] by {
        assert(s.subrange(i + off, i + off + part.len())[k] == s[i + off + k]);
        assert(s.subrange(i, i + whole.len())[off + k] == s[i + off + k]);
        assert(whole.subrange(off, off + part.len())[k] == whole[off + k]);
    }
    assert(s.subrange(i + off, i + off + part.len()) =~= part);
}

/// A single character of `whole`, read through its place in `s`.
pub proof fn lemma_char_at(s: Seq<char>, i: int, whole: Seq<char>, off: int)
    requires
        0 <= i,
        i + whole.len() <= s.len(),
        s.subrange(i, i + whole.len()) == whole,
        0 <= off < whole.len(),
    ensures
        s[i + off] == whole[off],
{
    assert(s.subrange(i, i + whole.len())[off] == s[i + off]);
}

/// Reading a serialized string piece in place: if `ser_str(val)` sits in `s`
/// at `i`, the string parse at `i` decodes `val` and stops right after it.
pub proof fn lemma_parse_ser_str(s: Seq<char>, i: int, val: Seq<char>)
    requires
        0 <= i,
        i + ser_str(val).len() <= s.len(),
        s.subrange(i, i + ser_str(val).len()) == ser_str(val),
    ensures
        parse_string_spec(s, i) == Some((val, i + ser_str(val).len())),
{
    let w = ser_str(val);
    lemma_char_at(s, i, w, 0);
    assert(s[i] == '"');
    let body = esc(val) + seq!['"'];
    assert(w.subrange(1, 1 + body.len() as int) =~= body) by {
        assert(forall|k: int|
            0 <= k < body.len() ==> #[trigger] w.subrange(1, 1 + body.len() as int)[k] == w[1 + k]);
    }
    lemma_slice_of_slice(s, i, w, 1, body);
    lemma_parse_esc(s, i + 1, val);
}

// ---------- executable writer and reader for strings ----------
/// Appends `ser_str(s@)` to `out`.
pub fn emit_str(out: &mut Vec<char>, s: &str)
    ensures
        final(out)@ == old(out)@ + ser_str(s@),
{
    out.push('"');
    let n: usize = s.unicode_len();
    let mut i: usize = 0;
    while i < n
        invariant
            i <= n,
            n == s@.len(),
            out@ == old(out)@ + seq!['"'] + esc(s@.subrange(0, i as int)),
        decreases n - i,
    {
        let c = s.get_char(i);
        if c == '"' {
            out.push('\\');
            out.push('"');
        } else if c == '\\' {
            out.push('\\');
            out.push('\\');
        } else if c == '\n' {
            out.push('\\');
            out.push('n');
        } else if c == '\t' {
            out.push('\\');
            out.push('t');
        } else if c == '\r' {
            out.push('\\');
            out.push('r');
        } else {
            out.push(c);
        }
        proof {
            lemma_esc_snoc(s@.subrange(0, i as int), c);
            assert(s@.subrange(0, i as int).push(c) =~= s@.subrange(0, i + 1));
            assert(out@ =~= old(out)@ + seq!['"'] + esc(s@.subrange(0, i + 1)));
        }
        i = i + 1;
    }
    out.push('"');
    proof {
        assert(s@.subrange(0, n as int) =~= s@);
        assert(out@ =~= old(out)@ + ser_str(s@));
    }
}

/// Appends `ser_opt_str` of the option to `out`.
pub fn emit_opt_str(out: &mut Vec<char>, o: &Option<String>)
    ensures
        final(out)@ == old(out)@ + ser_opt_str(o.deep_view()),
{
    match o {
        Some(s) => emit_str(out, s.as_str()),
        None => {
            crate::strutil::push_str_chars(out, "null");
        },
    }
}

/// Advances past whitespace.
pub fn skip_ws(v: &Vec<char>, pos: usize) -> (r: usize)
    requires
        pos <= v@.len(),
    ensures
        r == skip_ws_spec(v@, pos as int),
        pos <= r <= v@.len(),
    decreases v@.len() - pos,
{
    if pos < v.len() && crate::strutil::is_ws_char(v[pos]) {
        skip_ws(v, pos + 1)
    } else {
        pos
    }
}

/// Reads a quoted string starting at `pos`; on success returns the decoded
/// characters and the position after the closing quote.
pub fn parse_string_at(v: &Vec<char>, pos: usize) -> (r: Option<(Vec<char>, usize)>)
    requires
        pos <= v@.len(),
    ensures
        match r {
            Some((w, j)) => parse_string_spec(v@, pos as int) == Some((w@, j as int)) && pos < j
                <= v@.len(),
            None => parse_string_spec(v@, pos as int) is None,
        },
{
    if pos >= v.len() || v[pos] != '"' {
        return None;
    }
    let mut out: Vec<char> = Vec::new();
    let mut j: usize = pos + 1;
    loop
        invariant
            pos + 1 <= j <= v@.len(),
            pos < v@.len(),
            v@[pos as int] == '"',
            match parse_str_body_spec(v@, j as int) {
                Some((rest, k)) => parse_str_body_spec(v@, pos + 1) == Some::<(Seq<char>, int)>(
                    (out@ + rest, k),
                ),
                None => parse_str_body_spec(v@, pos + 1) is None,
            },
        decreases v@.len() - j,
    {
        proof {
            lemma_parse_str_body_progress(v@, j as int);
        }
        if j >= v.len() {
            return None;
        }
        let c = v[j];
        if c == '"' {
            proof {
                assert(parse_str_body_spec(v@, j as int) == Some((Seq::<char>::empty(), j + 1)));
                assert(out@ + Seq::<char>::empty() =~= out@);
                assert(parse_str_body_spec(v@, pos + 1) == Some((out@, j + 1)));
            }
            return Some((out, j + 1));
        }
        if c == '\\' {
            if j + 1 >= v.len() {
                return None;
            }
            let d = v[j + 1];
            let dec: char;
            if d == '"' {
                dec = '"';
            } else if d == '\\' {
                dec = '\\';
            } else if d == 'n' {
                dec = '\n';
            } else if d == 't' {
                dec = '\t';
            } else if d == 'r' {
                dec = '\r';
            } else if d == '/' {
                dec = '/';
            } else {
                return None;
            }
            proof {
                let ghost (rest, k) = parse_str_body_spec(v@, j as int)->Some_0;
                if parse_str_body_spec(v@, j + 2) is Some {
                    let ghost (rest2, k2) = parse_str_body_spec(v@, j + 2)->Some_0;
                    assert(out@ + (seq![dec] + rest2) =~= out@.push(dec) + rest2);
                }
            }
            out.push(dec);
            j = j + 2;
        } else {
            proof {
                if parse_str_body_spec(v@, j + 1) is Some {
                    let ghost (rest2, k2) = parse_str_body_spec(v@, j + 1)->Some_0;
                    assert(out@ + (seq![c] + rest2) =~= out@.push(c) + rest2);
                }
            }
            out.push(c);
            j = j + 1;
        }
    }
}

} // verus!

verus! {

use crate::jobs::{BrowserJob, JobView};

// ---------- the job grammar ----------
/// A quoted key followed by its colon.
pub open spec fn ser_key(k: Seq<char>) -> Seq<char> {
    ser_str(k) + seq![':']
}

/// The written form of one job: an object with one variant key.
pub open spec fn ser_job(j: JobView) -> Seq<char> {
    match j {
        JobView::Navigate { url } => seq!['{'] + ser_key("Navigate"@) + ser_str(url) + seq!['}'],
        JobView::Click { selector } => seq!['{'] + ser_key("Click"@) + ser_str(selector)
            + seq!['}'],
        JobView::WaitFor { selector } => seq!['{'] + ser_key("WaitFor"@) + ser_str(selector)
            + seq!['}'],
        JobView::ScrollTo { selector } => seq!['{'] + ser_key("ScrollTo"@) + ser_str(selector)
            + seq!['}'],
        JobView::Type { selector, text } => seq!['{'] + ser_key("Type"@) + seq!['{'] + ser_key(
            "selector"@,
        ) + ser_str(selector) + seq![','] + ser_key("text"@) + ser_str(text) + seq!['}']
            + seq!['}'],
        JobView::Screenshot { prefix } => seq!['{'] + ser_key("Screenshot"@) + seq!['{'] + ser_key(
            "prefix"@,
        ) + ser_str(prefix) + seq!['}'] + seq!['}'],
    }
}

/// The job built from a single-string variant key and its payload.
pub open spec fn mk_simple_job(key: Seq<char>, val: Seq<char>) -> JobView {
    if key == "Navigate"@ {
        JobView::Navigate { url: val }
    } else if key == "Click"@ {
        JobView::Click { selector: val }
    } else if key == "WaitFor"@ {
        JobView::WaitFor { selector: val }
    } else {
        JobView::ScrollTo { selector: val }
    }
}

/// Reads the two-field object holding a Type job's selector and text; the
/// two fields may come in either order.
pub open spec fn parse_type_body_spec(s: Seq<char>, i: int) -> Option<((Seq<char>, Seq<char>), int)> {
    let i0 = skip_ws_spec(s, i);
    if !(i0 < s.len() && s[i0] == '{') {
        None
    } else {
        match parse_string_spec(s, skip_ws_spec(s, i0 + 1)) {
            None => None,
            Some((k1, i2)) => {
                let i3 = skip_ws_spec(s, i2);
                if !(i3 < s.len() && s[i3] == ':') {
                    None
                } else {
                    match parse_string_spec(s, skip_ws_spec(s, i3 + 1)) {
                        None => None,
                        Some((v1, i5)) => {
                            let i6 = skip_ws_spec(s, i5);
                            if !(i6 < s.len() && s[i6] == ',') {
                                None
                            } else {
                                match parse_string_spec(s, skip_ws_spec(s, i6 + 1)) {
                                    None => None,
                                    Some((k2, i8)) => {
                                        let i9 = skip_ws_spec(s, i8);
                                        if !(i9 < s.len() && s[i9] == ':') {
                                            None
                                        } else {
                                            match parse_string_spec(s, skip_ws_spec(s, i9 + 1)) {
                                                None => None,
                                                Some((v2, i11)) => {
                                                    let i12 = skip_ws_spec(s, i11);
                                                    if !(i12 < s.len() && s[i12] == '}') {
                                                        None
                                                    } else if k1 == "selector"@ && k2 == "text"@ {
                                                        Some(((v1, v2), i12 + 1))
                                                    } else if k1 == "text"@ && k2
                                                        == "selector"@ {
                                                        Some(((v2, v1), i12 + 1))
                                                    } else {
                                                        None
                                                    }
                                                },
                                            }
                                        }
                                    },
                                }
                            }
                        },
                    }
                }
            },
        }
    }
}

/// Reads the one-field object holding a Screenshot job's prefix.
pub open spec fn parse_prefix_body_spec(s: Seq<char>, i: int) -> Option<(Seq<char>, int)> {
    let i0 = skip_ws_spec(s, i);
    if !(i0 < s.len() && s[i0] == '{') {
        None
    } else {
        match parse_string_spec(s, skip_ws_spec(s, i0 + 1)) {
            None => None,
            Some((k1, i2)) => {
                let i3 = skip_ws_spec(s, i2);
                if !(i3 < s.len() && s[i3] == ':' && k1 == "prefix"@) {
                    None
                } else {
                    match parse_string_spec(s, skip_ws_spec(s, i3 + 1)) {
                        None => None,
                        Some((v1, i5)) => {
                            let i6 = skip_ws_spec(s, i5);
                            if !(i6 < s.len() && s[i6] == '}') {
                                None
                            } else {
                                Some((v1, i6 + 1))
                            }
                        },
                    }
                }
            },
        }
    }
}

/// Whether a key names one of the single-string job variants.
pub open spec fn is_simple_job_key(key: Seq<char>) -> bool {
    key == "Navigate"@ || key == "Click"@ || key == "WaitFor"@ || key == "ScrollTo"@
}

/// Reads one job object.
pub open spec fn parse_job_spec(s: Seq<char>, i: int) -> Option<(JobView, int)> {
    let i0 = skip_ws_spec(s, i);
    if !(i0 < s.len() && s[i0] == '{') {
        None
    } else {
        match parse_string_spec(s, skip_ws_spec(s, i0 + 1)) {
            None => None,
            Some((key, i2)) => {
                let i3 = skip_ws_spec(s, i2);
                if !(i3 < s.len() && s[i3] == ':') {
                    None
                } else {
                    let i4 = skip_ws_spec(s, i3 + 1);
                    if is_simple_job_key(key) {
                        match parse_string_spec(s, i4) {
                            None => None,
                            Some((val, i5)) => {
                                let i6 = skip_ws_spec(s, i5);
                                if i6 < s.len() && s[i6] == '}' {
                                    Some((mk_simple_job(key, val), i6 + 1))
                                } else {
                                    None
                                }
                            },
                        }
                    } else if key == "Type"@ {
                        match parse_type_body_spec(s, i4) {
                            None => None,
                            Some(((sel, text), i5)) => {
                                let i6 = skip_ws_spec(s, i5);
                                if i6 < s.len() && s[i6] == '}' {
                                    Some((JobView::Type { selector: sel, text: text }, i6 + 1))
                                } else {
                                    None
                                }
                            },
                        }
                    } else if key == "Screenshot"@ {
                        match parse_prefix_body_spec(s, i4) {
                            None => None,
                            Some((prefix, i5)) => {
                                let i6 = skip_ws_spec(s, i5);
                                if i6 < s.len() && s[i6] == '}' {
                                    Some((JobView::Screenshot { prefix }, i6 + 1))
                                } else {
                                    None
                                }
                            },
                        }
                    } else {
                        None
                    }
                }
            },
        }
    }
}

} // verus!

verus! {

/// Splitting a matched concatenation: if `x + y` sits in `s` at `i`, then
/// `x` sits at `i` and `y` right after it.
pub proof fn lemma_split_at(s: Seq<char>, i: int, x: Seq<char>, y: Seq<char>)
    requires
        0 <= i,
        i + x.len() + y.len() <= s.len(),
        s.subrange(i, i + x.len() + y.len()) == x + y,
    ensures
        s.subrange(i, i + x.len() as int) == x,
        s.subrange(i + x.len(), i + x.len() + y.len()) == y,
{
    let w = x + y;
    assert forall|k: int| 0 <= k < w.len() implies s[i + k] == w[k] by {
        assert(s.subrange(i, i + w.len())[k] == s[i + k]);
    }
    assert forall|k: int|
        0 <= k < x.len() implies #[trigger] s.subrange(i, i + x.len() as int)[k] == x[k] by {
        assert(s.subrange(i, i + x.len() as int)[k] == s[i + k]);
        assert(w[k] == x[k]);
    }
    assert(s.subrange(i, i + x.len() as int) =~= x);
    assert forall|k: int|
        0 <= k < y.len() implies #[trigger] s.subrange(i + x.len(), i + x.len() + y.len())[k]
        == y[k] by {
        assert(s.subrange(i + x.len(), i + x.len() + y.len())[k] == s[i + x.len() + k]);
        assert(w[x.len() + k] == y[k]);
    }
    assert(s.subrange(i + x.len(), i + x.len() + y.len()) =~= y);
}

/// Reading a serialized key in place: the quoted key followed by its colon.
proof fn lemma_parse_ser_key(s: Seq<char>, i: int, key: Seq<char>)
    requires
        0 <= i,
        i + ser_key(key).len() <= s.len(),
        s.subrange(i, i + ser_key(key).len()) == ser_key(key),
    ensures
        parse_string_spec(s, i) == Some((key, i + ser_str(key).len())),
        s[i + ser_str(key).len()] == ':',
{
    lemma_split_at(s, i, ser_str(key), seq![':']);
    lemma_parse_ser_str(s, i, key);
    lemma_char_at(s, i + ser_str(key).len(), seq![':'], 0);
}

/// Reading back a serialized job: if `ser_job(j)` sits in `s` at `i`, the
/// job parse at `i` yields exactly `j` and stops right after it.
pub proof fn lemma_parse_job_ser(s: Seq<char>, i: int, j: JobView)
    requires
        0 <= i,
        i + ser_job(j).len() <= s.len(),
        s.subrange(i, i + ser_job(j).len()) == ser_job(j),
    ensures
        parse_job_spec(s, i) == Some((j, i + ser_job(j).len())),
{
    let w = ser_job(j);
    match j {
        JobView::Navigate { url } => {
            lemma_parse_simple_job_ser(s, i, "Navigate"@, url);
            reveal_strlit("Navigate");
            reveal_strlit("Click");
            reveal_strlit("WaitFor");
            reveal_strlit("ScrollTo");
        },
        JobView::Click { selector } => {
            lemma_parse_simple_job_ser(s, i, "Click"@, selector);
            reveal_strlit("Navigate");
            reveal_strlit("Click");
            reveal_strlit("WaitFor");
            reveal_strlit("ScrollTo");
        },
        JobView::WaitFor { selector } => {
            lemma_parse_simple_job_ser(s, i, "WaitFor"@, selector);
            reveal_strlit("Navigate");
            reveal_strlit("Click");
            reveal_strlit("WaitFor");
            reveal_strlit("ScrollTo");
        },
        JobView::ScrollTo { selector } => {
            lemma_parse_simple_job_ser(s, i, "ScrollTo"@, selector);
            reveal_strlit("Navigate");
            reveal_strlit("Click");
            reveal_strlit("WaitFor");
            reveal_strlit("ScrollTo");
        },
        JobView::Type { selector, text } => {
            lemma_parse_type_job_ser(s, i, selector, text);
        },
        JobView::Screenshot { prefix } => {
            lemma_parse_screenshot_job_ser(s, i, prefix);
        },
    }
}

/// The single-string job variants, `{"<key>":"<value>"}`.
proof fn lemma_parse_simple_job_ser(s: Seq<char>, i: int, key: Seq<char>, val: Seq<char>)
    requires
        0 <= i,
        is_simple_job_key(key),
        i + (seq!['{'] + ser_key(key) + ser_str(val) + seq!['}']).len() <= s.len(),
        s.subrange(i, i + (seq!['{'] + ser_key(key) + ser_str(val) + seq!['}']).len()) == seq!['{']
            + ser_key(key) + ser_str(val) + seq!['}'],
    ensures
        parse_job_spec(s, i) == Some(
            (
                mk_simple_job(key, val),
                i + (seq!['{'] + ser_key(key) + ser_str(val) + seq!['}']).len(),
            ),
        ),
{
    let w = seq!['{'] + ser_key(key) + ser_str(val) + seq!['}'];
    let p012 = seq!['{'] + ser_key(key) + ser_str(val);
    let p01 = seq!['{'] + ser_key(key);
    lemma_split_at(s, i, p012, seq!['}']);
    lemma_split_at(s, i, p01, ser_str(val));
    lemma_split_at(s, i, seq!['{'], ser_key(key));
    lemma_char_at(s, i, seq!['{'], 0);
    lemma_parse_ser_key(s, i + 1, key);
    let ik = i + 1 + ser_str(key).len();
    // ik holds the colon; the value starts right after it
    lemma_parse_ser_str(s, ik + 1, val);
    let iv = ik + 1 + ser_str(val).len();
    lemma_char_at(s, iv, seq!['}'], 0);
    assert(skip_ws_spec(s, i) == i);
    assert(skip_ws_spec(s, i + 1) == i + 1);
    assert(skip_ws_spec(s, ik) == ik);
    assert(skip_ws_spec(s, ik + 1) == ik + 1);
    assert(skip_ws_spec(s, iv) == iv);
    assert(parse_job_spec(s, i) == Some((mk_simple_job(key, val), iv + 1)));
}

/// The Type job, `{"Type":{"selector":…,"text":…}}`.
proof fn lemma_parse_type_job_ser(s: Seq<char>, i: int, sel: Seq<char>, text: Seq<char>)
    requires
        0 <= i,
        i + ser_job(JobView::Type { selector: sel, text: text }).len() <= s.len(),
        s.subrange(i, i + ser_job(JobView::Type { selector: sel, text: text }).len()) == ser_job(
            JobView::Type { selector: sel, text: text },
        ),
    ensures
        parse_job_spec(s, i) == Some(
            (
                JobView::Type { selector: sel, text: text },
                i + ser_job(JobView::Type { selector: sel, text: text }).len(),
            ),
        ),
{
    let w = ser_job(JobView::Type { selector: sel, text: text });
    let p0 = seq!['{'];
    let p1 = ser_key("Type"@);
    let p2 = seq!['{'];
    let p3 = ser_key("selector"@);
    let p4 = ser_str(sel);
    let p5 = seq![','];
    let p6 = ser_key("text"@);
    let p7 = ser_str(text);
    let p8 = seq!['}'];
    let p9 = seq!['}'];
    lemma_split_at(s, i, p0 + p1 + p2 + p3 + p4 + p5 + p6 + p7 + p8, p9);
    lemma_split_at(s, i, p0 + p1 + p2 + p3 + p4 + p5 + p6 + p7, p8);
    lemma_split_at(s, i, p0 + p1 + p2 + p3 + p4 + p5 + p6, p7);
    lemma_split_at(s, i, p0 + p1 + p2 + p3 + p4 + p5, p6);
    lemma_split_at(s, i, p0 + p1 + p2 + p3 + p4, p5);
    lemma_split_at(s, i, p0 + p1 + p2 + p3, p4);
    lemma_split_at(s, i, p0 + p1 + p2, p3);
    lemma_split_at(s, i, p0 + p1, p2);
    lemma_split_at(s, i, p0, p1);
    let i1 = i + 1;
    let i2 = i1 + p1.len();
    let i3 = i2 + 1;
    let i4 = i3 + p3.len();
    let i5 = i4 + p4.len();
    let i6 = i5 + 1;
    let i7 = i6 + p6.len();
    let i8 = i7 + p7.len();
    let i9 = i8 + 1;
    lemma_char_at(s, i, p0, 0);
    lemma_parse_ser_key(s, i1, "Type"@);
    lemma_char_at(s, i2, p2, 0);
    lemma_parse_ser_key(s, i3, "selector"@);
    lemma_parse_ser_str(s, i3 + ser_str("selector"@).len() + 1, sel);
    lemma_char_at(s, i5, p5, 0);
    lemma_parse_ser_key(s, i6, "text"@);
    lemma_parse_ser_str(s, i6 + ser_str("text"@).len() + 1, text);
    lemma_char_at(s, i8, p8, 0);
    lemma_char_at(s, i9, p9, 0);
    assert(skip_ws_spec(s, i) == i);
    assert(skip_ws_spec(s, i1) == i1);
    assert(skip_ws_spec(s, i2) == i2);
    assert(skip_ws_spec(s, i2 + 1) == i2 + 1);
    assert(skip_ws_spec(s, i3) == i3);
    assert(skip_ws_spec(s, i4 - 1 + 1) == i4);
    assert(skip_ws_spec(s, i5) == i5);
    assert(skip_ws_spec(s, i6) == i6);
    assert(skip_ws_spec(s, i7) == i7);
    assert(skip_ws_spec(s, i8) == i8);
    assert(skip_ws_spec(s, i9) == i9);
    reveal_strlit("Type");
    reveal_strlit("selector");
    reveal_strlit("text");
    reveal_strlit("Navigate");
    reveal_strlit("Click");
    reveal_strlit("WaitFor");
    reveal_strlit("ScrollTo");
    assert(!is_simple_job_key("Type"@));
    assert(parse_type_body_spec(s, i2) == Some(((sel, text), i9)));
    assert(parse_job_spec(s, i) == Some((JobView::Type { selector: sel, text: text }, i9 + 1)));
}

/// The Screenshot job, `{"Screenshot":{"prefix":…}}`.
proof fn lemma_parse_screenshot_job_ser(s: Seq<char>, i: int, prefix: Seq<char>)
    requires
        0 <= i,
        i + ser_job(JobView::Screenshot { prefix }).len() <= s.len(),
        s.subrange(i, i + ser_job(JobView::Screenshot { prefix }).len()) == ser_job(
            JobView::Screenshot { prefix },
        ),
    ensures
        parse_job_spec(s, i) == Some(
            (JobView::Screenshot { prefix }, i + ser_job(JobView::Screenshot { prefix }).len()),
        ),
{
    let w = ser_job(JobView::Screenshot { prefix });
    let p0 = seq!['{'];
    let p1 = ser_key("Screenshot"@);
    let p2 = seq!['{'];
    let p3 = ser_key("prefix"@);
    let p4 = ser_str(prefix);
    let p5 = seq!['}'];
    let p6 = seq!['}'];
    lemma_split_at(s, i, p0 + p1 + p2 + p3 + p4 + p5, p6);
    lemma_split_at(s, i, p0 + p1 + p2 + p3 + p4, p5);
    lemma_split_at(s, i, p0 + p1 + p2 + p3, p4);
    lemma_split_at(s, i, p0 + p1 + p2, p3);
    lemma_split_at(s, i, p0 + p1, p2);
    lemma_split_at(s, i, p0, p1);
    let i1 = i + 1;
    let i2 = i1 + p1.len();
    let i3 = i2 + 1;
    let i4 = i3 + p3.len();
    let i5 = i4 + p4.len();
    let i6 = i5 + 1;
    lemma_char_at(s, i, p0, 0);
    lemma_parse_ser_key(s, i1, "Screenshot"@);
    lemma_char_at(s, i2, p2, 0);
    lemma_parse_ser_key(s, i3, "prefix"@);
    lemma_parse_ser_str(s, i3 + ser_str("prefix"@).len() + 1, prefix);
    lemma_char_at(s, i5, p5, 0);
    lemma_char_at(s, i6, p6, 0);
    assert(skip_ws_spec(s, i) == i);
    assert(skip_ws_spec(s, i1) == i1);
    assert(skip_ws_spec(s, i2) == i2);
    assert(skip_ws_spec(s, i2 + 1) == i2 + 1);
    assert(skip_ws_spec(s, i3) == i3);
    assert(skip_ws_spec(s, i4) == i4);
    assert(skip_ws_spec(s, i5) == i5);
    assert(skip_ws_spec(s, i6) == i6);
    reveal_strlit("Screenshot");
    reveal_strlit("prefix");
    reveal_strlit("Navigate");
    reveal_strlit("Click");
    reveal_strlit("WaitFor");
    reveal_strlit("ScrollTo");
    reveal_strlit("Type");
    assert(!is_simple_job_key("Screenshot"@));
    assert("Screenshot"@ != "Type"@);
    assert(parse_prefix_body_spec(s, i2) == Some((prefix, i6)));
    assert(parse_job_spec(s, i) == Some((JobView::Screenshot { prefix }, i6 + 1)));
}

} // verus!

verus! {

/// Appends `ser_job(j@)` to `out`.
pub fn emit_job(out: &mut Vec<char>, j: &BrowserJob)
    ensures
        final(out)@ == old(out)@ + ser_job(j@),
{
    match j {
        BrowserJob::Navigate(url) => {
            out.push('{');
            emit_str(out, "Navigate");
            out.push(':');
            emit_str(out, url.as_str());
            out.push('}');
        },
        BrowserJob::Click(selector) => {
            out.push('{');
            emit_str(out, "Click");
            out.push(':');
            emit_str(out, selector.as_str());
            out.push('}');
        },
        BrowserJob::WaitFor(selector) => {
            out.push('{');
            emit_str(out, "WaitFor");
            out.push(':');
            emit_str(out, selector.as_str());
            out.push('}');
        },
        BrowserJob::ScrollTo(selector) => {
            out.push('{');
            emit_str(out, "ScrollTo");
            out.push(':');
            emit_str(out, selector.as_str());
            out.push('}');
        },
        BrowserJob::Type { selector, text } => {
            out.push('{');
            emit_str(out, "Type");
            out.push(':');
            out.push('{');
            emit_str(out, "selector");
            out.push(':');
            emit_str(out, selector.as_str());
            out.push(',');
            emit_str(out, "text");
            out.push(':');
            emit_str(out, text.as_str());
            out.push('}');
            out.push('}');
        },
        BrowserJob::Screenshot { prefix } => {
            out.push('{');
            emit_str(out, "Screenshot");
            out.push(':');
            out.push('{');
            emit_str(out, "prefix");
            out.push(':');
            emit_str(out, prefix.as_str());
            out.push('}');
            out.push('}');
        },
    }
    proof {
        assert(out@ =~= old(out)@ + ser_job(j@));
    }
}

/// Reads the Type job's inner object starting at `pos`.
fn parse_type_body_at(v: &Vec<char>, pos: usize) -> (r: Option<(String, String, usize)>)
    requires
        pos <= v@.len(),
    ensures
        match r {
            Some((sel, text, j)) => parse_type_body_spec(v@, pos as int) == Some(
                ((sel@, text@), j as int),
            ) && j <= v@.len(),
            None => parse_type_body_spec(v@, pos as int) is None,
        },
{
    let i0 = skip_ws(v, pos);
    if i0 >= v.len() || v[i0] != '{' {
        return None;
    }
    let i1 = skip_ws(v, i0 + 1);
    let (k1, i2) = match parse_string_at(v, i1) {
        Some(x) => x,
        None => {
            return None;
        },
    };
    let i3 = skip_ws(v, i2);
    if i3 >= v.len() || v[i3] != ':' {
        return None;
    }
    let i4 = skip_ws(v, i3 + 1);
    let (v1, i5) = match parse_string_at(v, i4) {
        Some(x) => x,
        None => {
            return None;
        },
    };
    let i6 = skip_ws(v, i5);
    if i6 >= v.len() || v[i6] != ',' {
        return None;
    }
    let i7 = skip_ws(v, i6 + 1);
    let (k2, i8) = match parse_string_at(v, i7) {
        Some(x) => x,
        None => {
            return None;
        },
    };
    let i9 = skip_ws(v, i8);
    if i9 >= v.len() || v[i9] != ':' {
        return None;
    }
    let i10 = skip_ws(v, i9 + 1);
    let (v2, i11) = match parse_string_at(v, i10) {
        Some(x) => x,
        None => {
            return None;
        },
    };
    let i12 = skip_ws(v, i11);
    if i12 >= v.len() || v[i12] != '}' {
        return None;
    }
    let k1_is_sel = crate::strutil::chars_eq_str(&k1, "selector");
    let k1_is_text = crate::strutil::chars_eq_str(&k1, "text");
    let k2_is_sel = crate::strutil::chars_eq_str(&k2, "selector");
    let k2_is_text = crate::strutil::chars_eq_str(&k2, "text");
    if k1_is_sel && k2_is_text {
        Some((crate::strutil::chars_to_string(&v1), crate::strutil::chars_to_string(&v2), i12 + 1))
    } else if k1_is_text && k2_is_sel {
        Some((crate::strutil::chars_to_string(&v2), crate::strutil::chars_to_string(&v1), i12 + 1))
    } else {
        None
    }
}

/// Reads the Screenshot job's inner object starting at `pos`.
fn parse_prefix_body_at(v: &Vec<char>, pos: usize) -> (r: Option<(String, usize)>)
    requires
        pos <= v@.len(),
    ensures
        match r {
            Some((prefix, j)) => parse_prefix_body_spec(v@, pos as int) == Some(
                (prefix@, j as int),
            ) && j <= v@.len(),
            None => parse_prefix_body_spec(v@, pos as int) is None,
        },
{
    let i0 = skip_ws(v, pos);
    if i0 >= v.len() || v[i0] != '{' {
        return None;
    }
    let i1 = skip_ws(v, i0 + 1);
    let (k1, i2) = match parse_string_at(v, i1) {
        Some(x) => x,
        None => {
            return None;
        },
    };
    let i3 = skip_ws(v, i2);
    if i3 >= v.len() || v[i3] != ':' || !crate::strutil::chars_eq_str(&k1, "prefix") {
        return None;
    }
    let i4 = skip_ws(v, i3 + 1);
    let (v1, i5) = match parse_string_at(v, i4) {
        Some(x) => x,
        None => {
            return None;
        },
    };
    let i6 = skip_ws(v, i5);
    if i6 >= v.len() || v[i6] != '}' {
        return None;
    }
    Some((crate::strutil::chars_to_string(&v1), i6 + 1))
}

/// Reads one job object starting at `pos`.
pub fn parse_job_at(v: &Vec<char>, pos: usize) -> (r: Option<(BrowserJob, usize)>)
    requires
        pos <= v@.len(),
    ensures
        match r {
            Some((job, j)) => parse_job_spec(v@, pos as int) == Some((job@, j as int)) && j
                <= v@.len(),
            None => parse_job_spec(v@, pos as int) is None,
        },
{
    let i0 = skip_ws(v, pos);
    if i0 >= v.len() || v[i0] != '{' {
        return None;
    }
    let i1 = skip_ws(v, i0 + 1);
    let (key, i2) = match parse_string_at(v, i1) {
        Some(x) => x,
        None => {
            return None;
        },
    };
    let i3 = skip_ws(v, i2);
    if i3 >= v.len() || v[i3] != ':' {
        return None;
    }
    let i4 = skip_ws(v, i3 + 1);
    let is_navigate = crate::strutil::chars_eq_str(&key, "Navigate");
    let is_click = crate::strutil::chars_eq_str(&key, "Click");
    let is_wait = crate::strutil::chars_eq_str(&key, "WaitFor");
    let is_scroll = crate::strutil::chars_eq_str(&key, "ScrollTo");
    if is_navigate || is_click || is_wait || is_scroll {
        let (val, i5) = match parse_string_at(v, i4) {
            Some(x) => x,
            None => {
                return None;
            },
        };
        let i6 = skip_ws(v, i5);
        if i6 >= v.len() || v[i6] != '}' {
            return None;
        }
        let payload = crate::strutil::chars_to_string(&val);
        let job = if is_navigate {
            BrowserJob::Navigate(payload)
        } else if is_click {
            BrowserJob::Click(payload)
        } else if is_wait {
            BrowserJob::WaitFor(payload)
        } else {
            BrowserJob::ScrollTo(payload)
        };
        Some((job, i6 + 1))
    } else if crate::strutil::chars_eq_str(&key, "Type") {
        let (sel, text, i5) = match parse_type_body_at(v, i4) {
            Some(x) => x,
            None => {
                return None;
            },
        };
        let i6 = skip_ws(v, i5);
        if i6 >= v.len() || v[i6] != '}' {
            return None;
        }
        Some((BrowserJob::Type { selector: sel, text: text }, i6 + 1))
    } else if crate::strutil::chars_eq_str(&key, "Screenshot") {
        let (prefix, i5) = match parse_prefix_body_at(v, i4) {
            Some(x) => x,
            None => {
                return None;
            },
        };
        let i6 = skip_ws(v, i5);
        if i6 >= v.len() || v[i6] != '}' {
            return None;
        }
        Some((BrowserJob::Screenshot { prefix }, i6 + 1))
    } else {
        None
    }
}

} // verus!

verus! {

// ---------- progress of the readers ----------
pub proof fn lemma_parse_string_progress(s: Seq<char>, i: int)
    ensures
        match parse_string_spec(s, i) {
            Some((_v, j)) => i < j <= s.len(),
            None => true,
        },
{
    if 0 <= i < s.len() && s[i] == '"' {
        lemma_parse_str_body_progress(s, i + 1);
    }
}

pub proof fn lemma_parse_job_progress(s: Seq<char>, i: int)
    requires
        0 <= i <= s.len(),
    ensures
        match parse_job_spec(s, i) {
            Some((_j, p)) => i < p <= s.len(),
            None => true,
        },
{
    lemma_skip_ws_bounds(s, i);
    let i0 = skip_ws_spec(s, i);
    if i0 < s.len() && s[i0] == '{' {
        lemma_skip_ws_bounds(s, i0 + 1);
        let i1 = skip_ws_spec(s, i0 + 1);
        lemma_parse_string_progress(s, i1);
        match parse_string_spec(s, i1) {
            None => {},
            Some((key, i2)) => {
                lemma_skip_ws_bounds(s, i2);
                let i3 = skip_ws_spec(s, i2);
                if i3 < s.len() && s[i3] == ':' {
                    lemma_skip_ws_bounds(s, i3 + 1);
                    let i4 = skip_ws_spec(s, i3 + 1);
                    lemma_parse_string_progress(s, i4);
                    lemma_parse_type_body_progress(s, i4);
                    lemma_parse_prefix_body_progress(s, i4);
                    match parse_string_spec(s, i4) {
                        None => {},
                        Some((_, i5)) => {
                            lemma_skip_ws_bounds(s, i5);
                        },
                    }
                    match parse_type_body_spec(s, i4) {
                        None => {},
                        Some((_, i5)) => {
                            lemma_skip_ws_bounds(s, i5);
                        },
                    }
                    match parse_prefix_body_spec(s, i4) {
                        None => {},
                        Some((_, i5)) => {
                            lemma_skip_ws_bounds(s, i5);
                        },
                    }
                }
            },
        }
    }
}

proof fn lemma_parse_type_body_progress(s: Seq<char>, i: int)
    requires
        0 <= i <= s.len(),
    ensures
        match parse_type_body_spec(s, i) {
            Some((_v, p)) => i < p <= s.len(),
            None => true,
        },
{
    lemma_skip_ws_bounds(s, i);
    let i0 = skip_ws_spec(s, i);
    if i0 < s.len() && s[i0] == '{' {
        lemma_skip_ws_bounds(s, i0 + 1);
        lemma_parse_string_progress(s, skip_ws_spec(s, i0 + 1));
        match parse_string_spec(s, skip_ws_spec(s, i0 + 1)) {
            None => {},
            Some((_k1, i2)) => {
                lemma_skip_ws_bounds(s, i2);
                let i3 = skip_ws_spec(s, i2);
                if i3 < s.len() && s[i3] == ':' {
                    lemma_skip_ws_bounds(s, i3 + 1);
                    lemma_parse_string_progress(s, skip_ws_spec(s, i3 + 1));
                    match parse_string_spec(s, skip_ws_spec(s, i3 + 1)) {
                        None => {},
                        Some((_v1, i5)) => {
                            lemma_skip_ws_bounds(s, i5);
                            let i6 = skip_ws_spec(s, i5);
                            if i6 < s.len() && s[i6] == ',' {
                                lemma_skip_ws_bounds(s, i6 + 1);
                                lemma_parse_string_progress(s, skip_ws_spec(s, i6 + 1));
                                match parse_string_spec(s, skip_ws_spec(s, i6 + 1)) {
                                    None => {},
                                    Some((_k2, i8)) => {
                                        lemma_skip_ws_bounds(s, i8);
                                        let i9 = skip_ws_spec(s, i8);
                                        if i9 < s.len() && s[i9] == ':' {
                                            lemma_skip_ws_bounds(s, i9 + 1);
                                            lemma_parse_string_progress(
                                                s,
                                                skip_ws_spec(s, i9 + 1),
                                            );
                                            match parse_string_spec(s, skip_ws_spec(s, i9 + 1)) {
                                                None => {},
                                                Some((_v2, i11)) => {
                                                    lemma_skip_ws_bounds(s, i11);
                                                },
                                            }
                                        }
                                    },
                                }
                            }
                        },
                    }
                }
            },
        }
    }
}

proof fn lemma_parse_prefix_body_progress(s: Seq<char>, i: int)
    requires
        0 <= i <= s.len(),
    ensures
        match parse_prefix_body_spec(s, i) {
            Some((_v, p)) => i < p <= s.len(),
            None => true,
        },
{
    lemma_skip_ws_bounds(s, i);
    let i0 = skip_ws_spec(s, i);
    if i0 < s.len() && s[i0] == '{' {
        lemma_skip_ws_bounds(s, i0 + 1);
        lemma_parse_string_progress(s, skip_ws_spec(s, i0 + 1));
        match parse_string_spec(s, skip_ws_spec(s, i0 + 1)) {
            None => {},
            Some((_k1, i2)) => {
                lemma_skip_ws_bounds(s, i2);
                let i3 = skip_ws_spec(s, i2);
                if i3 < s.len() && s[i3] == ':' {
                    lemma_skip_ws_bounds(s, i3 + 1);
                    lemma_parse_string_progress(s, skip_ws_spec(s, i3 + 1));
                    match parse_string_spec(s, skip_ws_spec(s, i3 + 1)) {
                        None => {},
                        Some((_v1, i5)) => {
                            lemma_skip_ws_bounds(s, i5);
                        },
                    }
                }
            },
        }
    }
}

// ---------- lists of jobs ----------
/// The comma-joined bodies of a job list.
pub open spec fn ser_jobs_items(js: Seq<JobView>) -> Seq<char>
    decreases js.len(),
{
    if js.len() == 0 {
        Seq::empty()
    } else if js.len() == 1 {
        ser_job(js[0])
    } else {
        ser_job(js[0]) + seq![','] + ser_jobs_items(js.drop_first())
    }
}

/// The written form of a job list.
pub open spec fn ser_jobs(js: Seq<JobView>) -> Seq<char> {
    seq!['['] + ser_jobs_items(js) + seq![']']
}

/// Reads the elements of a non-empty job list, starting at the first
/// element, up to and past the closing bracket. Fuel bounds the recursion;
/// any fuel larger than the remaining input length gives the same answer.
pub open spec fn parse_jobs_tail_spec(s: Seq<char>, i: int, fuel: nat) -> Option<
    (Seq<JobView>, int),
>
    decreases fuel,
{
    if fuel == 0 {
        None
    } else {
        match parse_job_spec(s, i) {
            None => None,
            Some((j0, p)) => {
                let q = skip_ws_spec(s, p);
                if q < s.len() && s[q] == ',' {
                    match parse_jobs_tail_spec(s, q + 1, (fuel - 1) as nat) {
                        Some((rest, m)) => Some((seq![j0] + rest, m)),
                        None => None,
                    }
                } else if q < s.len() && s[q] == ']' {
                    Some((seq![j0], q + 1))
                } else {
                    None
                }
            },
        }
    }
}

/// Reads a job list.
pub open spec fn parse_jobs_spec(s: Seq<char>, i: int, fuel: nat) -> Option<(Seq<JobView>, int)> {
    let i0 = skip_ws_spec(s, i);
    if !(i0 < s.len() && s[i0] == '[') {
        None
    } else {
        let i1 = skip_ws_spec(s, i0 + 1);
        if i1 < s.len() && s[i1] == ']' {
            Some((Seq::empty(), i1 + 1))
        } else {
            parse_jobs_tail_spec(s, i0 + 1, fuel)
        }
    }
}

/// The job list a complete text denotes: the list parse must consume
/// everything but trailing whitespace.
pub open spec fn jobs_of(s: Seq<char>) -> Option<Seq<JobView>> {
    match parse_jobs_spec(s, 0, (s.len() + 1) as nat) {
        Some((js, j)) => if skip_ws_spec(s, j) == s.len() {
            Some(js)
        } else {
            None
        },
        None => None,
    }
}

/// Fuel does not matter once it exceeds the remaining input length.
pub proof fn lemma_jobs_tail_fuel(s: Seq<char>, i: int, f1: nat, f2: nat)
    requires
        0 <= i <= s.len(),
        f1 > s.len() - i,
        f2 > s.len() - i,
    ensures
        parse_jobs_tail_spec(s, i, f1) == parse_jobs_tail_spec(s, i, f2),
    decreases f1,
{
    lemma_parse_job_progress(s, i);
    match parse_job_spec(s, i) {
        None => {},
        Some((_j0, p)) => {
            lemma_skip_ws_bounds(s, p);
            let q = skip_ws_spec(s, p);
            if q < s.len() && s[q] == ',' {
                lemma_jobs_tail_fuel(s, q + 1, (f1 - 1) as nat, (f2 - 1) as nat);
            }
        },
    }
}

} // verus!

verus! {

/// Every serialized job opens with a brace.
pub proof fn lemma_ser_job_shape(j: JobView)
    ensures
        ser_job(j).len() >= 2,
        ser_job(j)[0] == '{',
{
    match j {
        JobView::Navigate { url } => {
            assert(ser_job(j)[0] == '{');
        },
        JobView::Click { selector } => {
            assert(ser_job(j)[0] == '{');
        },
        JobView::WaitFor { selector } => {
            assert(ser_job(j)[0] == '{');
        },
        JobView::ScrollTo { selector } => {
            assert(ser_job(j)[0] == '{');
        },
        JobView::Type { selector, text } => {
            assert(ser_job(j)[0] == '{');
        },
        JobView::Screenshot { prefix } => {
            assert(ser_job(j)[0] == '{');
        },
    }
}

/// A non-empty item list is at least as long as the job count.
pub proof fn lemma_ser_jobs_items_len(js: Seq<JobView>)
    requires
        js.len() > 0,
    ensures
        ser_jobs_items(js).len() >= js.len(),
    decreases js.len(),
{
    lemma_ser_job_shape(js[0]);
    if js.len() > 1 {
        lemma_ser_jobs_items_len(js.drop_first());
    }
}

/// Appending one job to an item list appends its body (and a comma if the
/// list was not empty).
pub proof fn lemma_ser_jobs_items_snoc(a: Seq<JobView>, j: JobView)
    ensures
        ser_jobs_items(a.push(j)) == if a.len() == 0 {
            ser_job(j)
        } else {
            ser_jobs_items(a) + seq![','] + ser_job(j)
        },
    decreases a.len(),
{
    let w = a.push(j);
    if a.len() == 0 {
        assert(w.len() == 1);
        assert(w[0] == j);
        assert(ser_jobs_items(w) == ser_job(j));
    } else {
        assert(w.drop_first() =~= a.drop_first().push(j));
        lemma_ser_jobs_items_snoc(a.drop_first(), j);
        if a.len() == 1 {
            assert(a.drop_first().len() == 0);
            assert(ser_jobs_items(w) == ser_job(w[0]) + seq![','] + ser_jobs_items(
                w.drop_first(),
            ));
            assert(ser_jobs_items(w) =~= ser_jobs_items(a) + seq![','] + ser_job(j));
        } else {
            assert(ser_jobs_items(w) == ser_job(w[0]) + seq![','] + ser_jobs_items(
                w.drop_first(),
            ));
            assert(ser_jobs_items(a) == ser_job(a[0]) + seq![','] + ser_jobs_items(
                a.drop_first(),
            ));
            assert(ser_jobs_items(w) =~= ser_jobs_items(a) + seq![','] + ser_job(j));
        }
    }
}

/// Reading back a serialized item list followed by the closing bracket.
proof fn lemma_parse_jobs_tail_ser(s: Seq<char>, i: int, js: Seq<JobView>, fuel: nat)
    requires
        js.len() > 0,
        0 <= i,
        i + ser_jobs_items(js).len() + 1 <= s.len(),
        s.subrange(i, i + ser_jobs_items(js).len() + 1) == ser_jobs_items(js) + seq![']'],
        fuel >= js.len(),
    ensures
        parse_jobs_tail_spec(s, i, fuel) == Some((js, i + ser_jobs_items(js).len() + 1)),
    decreases js.len(),
{
    let items = ser_jobs_items(js);
    if js.len() == 1 {
        let a = ser_job(js[0]);
        assert(items == a);
        lemma_split_at(s, i, a, seq![']']);
        lemma_parse_job_ser(s, i, js[0]);
        lemma_char_at(s, i + a.len(), seq![']'], 0);
        assert(skip_ws_spec(s, i + a.len()) == i + a.len());
        assert(seq![js[0]] =~= js);
    } else {
        let a = ser_job(js[0]);
        let c = ser_jobs_items(js.drop_first());
        assert(items == a + seq![','] + c);
        assert(items + seq![']'] =~= (a + seq![',']) + (c + seq![']']));
        lemma_split_at(s, i, a + seq![','], c + seq![']']);
        assert(a + seq![','] =~= a + seq![',']);
        lemma_split_at(s, i, a, seq![',']);
        lemma_parse_job_ser(s, i, js[0]);
        let p = i + a.len();
        lemma_char_at(s, p, seq![','], 0);
        assert(skip_ws_spec(s, p) == p);
        lemma_parse_jobs_tail_ser(s, p + 1, js.drop_first(), (fuel - 1) as nat);
        assert(seq![js[0]] + js.drop_first() =~= js);
        assert(i + (a + seq![',']).len() == p + 1);
        assert(p + 1 + c.len() + 1 == i + items.len() + 1);
    }
}

/// Round trip of a job list: reading the written form of `js` gives back
/// exactly `js`.
pub proof fn lemma_jobs_round_trip(js: Seq<JobView>)
    ensures
        jobs_of(ser_jobs(js)) == Some(js),
{
    let s = ser_jobs(js);
    let items = ser_jobs_items(js);
    assert(s.subrange(0, s.len() as int) =~= s);
    assert(s =~= seq!['['] + (items + seq![']']));
    lemma_split_at(s, 0, seq!['['], items + seq![']']);
    lemma_char_at(s, 0, seq!['['], 0);
    assert(skip_ws_spec(s, 0) == 0);
    if js.len() == 0 {
        assert(items.len() == 0);
        lemma_char_at(s, 1, items + seq![']'], 0);
        assert(s[1] == ']');
        assert(skip_ws_spec(s, 1) == 1);
        assert(skip_ws_spec(s, 2) == 2);
        assert(parse_jobs_spec(s, 0, (s.len() + 1) as nat) == Some(
            (Seq::<JobView>::empty(), 2int),
        ));
    } else {
        lemma_ser_jobs_items_len(js);
        lemma_ser_job_shape(js[0]);
        lemma_char_at(s, 1, items + seq![']'], 0);
        if js.len() == 1 {
            assert(items[0] == ser_job(js[0])[0]);
        } else {
            assert(items == ser_job(js[0]) + seq![','] + ser_jobs_items(js.drop_first()));
            assert(items[0] == ser_job(js[0])[0]);
        }
        assert(s[1] == '{');
        assert(skip_ws_spec(s, 1) == 1);
        lemma_parse_jobs_tail_ser(s, 1, js, (s.len() + 1) as nat);
        assert(skip_ws_spec(s, s.len() as int) == s.len());
    }
}

/// Appends `ser_jobs` of the list to `out`.
pub fn emit_jobs(out: &mut Vec<char>, jobs: &Vec<BrowserJob>)
    ensures
        final(out)@ == old(out)@ + ser_jobs(jobs@.map_values(|j: BrowserJob| j@)),
{
    out.push('[');
    let n: usize = jobs.len();
    let mut k: usize = 0;
    while k < n
        invariant
            k <= n,
            n == jobs@.len(),
            out@ == old(out)@ + seq!['['] + ser_jobs_items(
                jobs@.subrange(0, k as int).map_values(|j: BrowserJob| j@),
            ),
        decreases n - k,
    {
        if k > 0 {
            out.push(',');
        }
        emit_job(out, &jobs[k]);
        proof {
            let prev = jobs@.subrange(0, k as int).map_values(|j: BrowserJob| j@);
            let cur = jobs@.subrange(0, k + 1).map_values(|j: BrowserJob| j@);
            assert(cur =~= prev.push(jobs@[k as int]@));
            lemma_ser_jobs_items_snoc(prev, jobs@[k as int]@);
            if k == 0 {
                assert(out@ =~= old(out)@ + seq!['['] + ser_jobs_items(cur));
            } else {
                assert(out@ =~= old(out)@ + seq!['['] + ser_jobs_items(cur));
            }
        }
        k = k + 1;
    }
    out.push(']');
    proof {
        assert(jobs@.subrange(0, n as int) =~= jobs@);
        assert(out@ =~= old(out)@ + ser_jobs(jobs@.map_values(|j: BrowserJob| j@)));
    }
}

/// Reads a complete job-list text. Succeeds exactly on the texts the
/// grammar admits, with only whitespace after the list.
pub fn parse_jobs(v: &Vec<char>) -> (r: Option<Vec<BrowserJob>>)
    ensures
        match r {
            Some(js) => jobs_of(v@) == Some(js@.map_values(|j: BrowserJob| j@)),
            None => jobs_of(v@) is None,
        },
{
    let i0 = skip_ws(v, 0);
    if i0 >= v.len() || v[i0] != '[' {
        return None;
    }
    let i1 = skip_ws(v, i0 + 1);
    if i1 < v.len() && v[i1] == ']' {
        let t = skip_ws(v, i1 + 1);
        if t == v.len() {
            let empty: Vec<BrowserJob> = Vec::new();
            proof {
                assert(empty@.map_values(|j: BrowserJob| j@) =~= Seq::<JobView>::empty());
            }
            return Some(empty);
        } else {
            return None;
        }
    }
    let ghost fuel0: nat = (v@.len() + 1) as nat;
    let mut out: Vec<BrowserJob> = Vec::new();
    let mut pos: usize = i0 + 1;
    let ghost start: int = i0 + 1;
    loop
        invariant
            0 <= start <= pos <= v@.len(),
            fuel0 == v@.len() + 1,
            fuel0 - out@.len() > v@.len() - pos,
            i0 < v@.len(),
            v@[i0 as int] == '[',
            skip_ws_spec(v@, 0) == i0 as int,
            start == i0 + 1,
            skip_ws_spec(v@, start) == i1 as int,
            !(i1 < v@.len() && v@[i1 as int] == ']'),
            match parse_jobs_tail_spec(v@, pos as int, (fuel0 - out@.len()) as nat) {
                Some((rest, m)) => parse_jobs_tail_spec(v@, start, fuel0) == Some(
                    (out@.map_values(|j: BrowserJob| j@) + rest, m),
                ),
                None => parse_jobs_tail_spec(v@, start, fuel0) is None,
            },
        decreases v@.len() - pos,
    {
        let ghost fuel_cur: nat = (fuel0 - out@.len()) as nat;
        proof {
            lemma_parse_job_progress(v@, pos as int);
        }
        let (job, p) = match parse_job_at(v, pos) {
            Some(x) => x,
            None => {
                return None;
            },
        };
        let q = skip_ws(v, p);
        if q < v.len() && v[q] == ',' {
            proof {
                let rec: nat = (fuel_cur - 1) as nat;
                let canon: nat = (fuel0 - (out@.len() + 1)) as nat;
                lemma_jobs_tail_fuel(v@, q + 1, rec, canon);
                let ghost out2 = out@.push(job).map_values(|j: BrowserJob| j@);
                assert(out2 =~= out@.map_values(|j: BrowserJob| j@).push(job@));
                match parse_jobs_tail_spec(v@, q + 1, canon) {
                    Some((rest, m)) => {
                        assert(out@.map_values(|j: BrowserJob| j@) + (seq![job@] + rest) =~= out2
                            + rest);
                    },
                    None => {},
                }
            }
            out.push(job);
            pos = q + 1;
        } else if q < v.len() && v[q] == ']' {
            proof {
                let ghost out2 = out@.push(job).map_values(|j: BrowserJob| j@);
                assert(out2 =~= out@.map_values(|j: BrowserJob| j@).push(job@));
                assert(out@.map_values(|j: BrowserJob| j@) + seq![job@] =~= out2);
            }
            out.push(job);
            let t = skip_ws(v, q + 1);
            if t == v.len() {
                return Some(out);
            } else {
                return None;
            }
        } else {
            return None;
        }
    }
}

} // verus!

verus! {

use crate::memory::MemoryEntryView;

// ---------- memory entries ----------
/// Reads a string value or the word `null`.
pub open spec fn parse_opt_string_spec(s: Seq<char>, i: int) -> Option<(Option<Seq<char>>, int)> {
    if 0 <= i < s.len() && s[i] == '"' {
        match parse_str_body_spec(s, i + 1) {
            Some((v, j)) => Some((Some(v), j)),
            None => None,
        }
    } else if 0 <= i && i + 4 <= s.len() && s.subrange(i, i + 4) == "null"@ {
        Some((None, i + 4))
    } else {
        None
    }
}

/// The fields of an entry object collected so far; `None` marks a field not
/// yet seen.
pub struct EntryAcc {
    pub timestamp: Option<Seq<char>>,
    pub page_url: Option<Option<Seq<char>>>,
    pub page_title: Option<Option<Seq<char>>>,
    pub dom_snapshot: Option<Option<Seq<char>>>,
    pub action: Option<Seq<char>>,
    pub selector: Option<Option<Seq<char>>>,
    pub job: Option<JobView>,
}

/// The accumulator with nothing seen.
pub open spec fn empty_acc() -> EntryAcc {
    EntryAcc {
        timestamp: None,
        page_url: None,
        page_title: None,
        dom_snapshot: None,
        action: None,
        selector: None,
        job: None,
    }
}

/// How many fields are still unseen.
pub open spec fn unseen(acc: EntryAcc) -> nat {
    (if acc.timestamp is None {
        1nat
    } else {
        0nat
    }) + (if acc.page_url is None {
        1nat
    } else {
        0nat
    }) + (if acc.page_title is None {
        1nat
    } else {
        0nat
    }) + (if acc.dom_snapshot is None {
        1nat
    } else {
        0nat
    }) + (if acc.action is None {
        1nat
    } else {
        0nat
    }) + (if acc.selector is None {
        1nat
    } else {
        0nat
    }) + (if acc.job is None {
        1nat
    } else {
        0nat
    })
}

/// Reads the fields of an entry object, in any order, each at most once,
/// starting at a field's key; all seven fields must be present by the
/// closing brace.
pub open spec fn parse_entry_fields(s: Seq<char>, i: int, acc: EntryAcc) -> Option<
    (MemoryEntryView, int),
>
    decreases unseen(acc), 0int,
{
    match parse_string_spec(s, skip_ws_spec(s, i)) {
        None => None,
        Some((key, p1)) => {
            let p2 = skip_ws_spec(s, p1);
            if !(p2 < s.len() && s[p2] == ':') {
                None
            } else {
                let p3 = skip_ws_spec(s, p2 + 1);
                if key == "timestamp"@ {
                    if acc.timestamp is Some {
                        None
                    } else {
                        match parse_string_spec(s, p3) {
                            None => None,
                            Some((v, p4)) => finish_field(
                                s,
                                p4,
                                EntryAcc { timestamp: Some(v), ..acc },
                            ),
                        }
                    }
                } else if key == "page_url"@ {
                    if acc.page_url is Some {
                        None
                    } else {
                        match parse_opt_string_spec(s, p3) {
                            None => None,
                            Some((v, p4)) => finish_field(
                                s,
                                p4,
                                EntryAcc { page_url: Some(v), ..acc },
                            ),
                        }
                    }
                } else if key == "page_title"@ {
                    if acc.page_title is Some {
                        None
                    } else {
                        match parse_opt_string_spec(s, p3) {
                            None => None,
                            Some((v, p4)) => finish_field(
                                s,
                                p4,
                                EntryAcc { page_title: Some(v), ..acc },
                            ),
                        }
                    }
                } else if key == "dom_snapshot"@ {
                    if acc.dom_snapshot is Some {
                        None
                    } else {
                        match parse_opt_string_spec(s, p3) {
                            None => None,
                            Some((v, p4)) => finish_field(
                                s,
                                p4,
                                EntryAcc { dom_snapshot: Some(v), ..acc },
                            ),
                        }
                    }
                } else if key == "action"@ {
                    if acc.action is Some {
                        None
                    } else {
                        match parse_string_spec(s, p3) {
                            None => None,
                            Some((v, p4)) => finish_field(
                                s,
                                p4,
                                EntryAcc { action: Some(v), ..acc },
                            ),
                        }
                    }
                } else if key == "selector"@ {
                    if acc.selector is Some {
                        None
                    } else {
                        match parse_opt_string_spec(s, p3) {
                            None => None,
                            Some((v, p4)) => finish_field(
                                s,
                                p4,
                                EntryAcc { selector: Some(v), ..acc },
                            ),
                        }
                    }
                } else if key == "job"@ {
                    if acc.job is Some {
                        None
                    } else {
                        match parse_job_spec(s, p3) {
                            None => None,
                            Some((v, p4)) => finish_field(s, p4, EntryAcc { job: Some(v), ..acc }),
                        }
                    }
                } else {
                    None
                }
            }
        },
    }
}

/// After one field's value: a comma continues with more fields, a closing
/// brace ends the object if every field was seen.
pub open spec fn finish_field(s: Seq<char>, p: int, acc: EntryAcc) -> Option<
    (MemoryEntryView, int),
>
    decreases unseen(acc), 1int,
{
    let q = skip_ws_spec(s, p);
    if q < s.len() && s[q] == ',' {
        parse_entry_fields(s, q + 1, acc)
    } else if q < s.len() && s[q] == '}' {
        if acc.timestamp is Some && acc.page_url is Some && acc.page_title is Some
            && acc.dom_snapshot is Some && acc.action is Some && acc.selector is Some
            && acc.job is Some {
            Some(
                (
                    MemoryEntryView {
                        timestamp: acc.timestamp->Some_0,
                        page_url: acc.page_url->Some_0,
                        page_title: acc.page_title->Some_0,
                        dom_snapshot: acc.dom_snapshot->Some_0,
                        action: acc.action->Some_0,
                        selector: acc.selector->Some_0,
                        job: acc.job->Some_0,
                    },
                    q + 1,
                ),
            )
        } else {
            None
        }
    } else {
        None
    }
}

/// Reads one entry object.
pub open spec fn parse_entry_spec(s: Seq<char>, i: int) -> Option<(MemoryEntryView, int)> {
    let i0 = skip_ws_spec(s, i);
    if i0 < s.len() && s[i0] == '{' {
        parse_entry_fields(s, i0 + 1, empty_acc())
    } else {
        None
    }
}

/// A later field: comma, quoted key, colon, string value.
pub open spec fn field_str(key: Seq<char>, v: Seq<char>) -> Seq<char> {
    seq![','] + ser_key(key) + ser_str(v)
}

/// A later field with an optional string value.
pub open spec fn field_opt(key: Seq<char>, o: Option<Seq<char>>) -> Seq<char> {
    seq![','] + ser_key(key) + ser_opt_str(o)
}

/// The job field.
pub open spec fn field_job(j: JobView) -> Seq<char> {
    seq![','] + ser_key("job"@) + ser_job(j)
}

/// The written form of one entry: all seven fields, in one fixed order.
pub open spec fn ser_entry(e: MemoryEntryView) -> Seq<char> {
    seq!['{'] + ser_key("timestamp"@) + ser_str(e.timestamp) + field_opt("page_url"@, e.page_url)
        + field_opt("page_title"@, e.page_title) + field_opt("dom_snapshot"@, e.dom_snapshot)
        + field_str("action"@, e.action) + field_opt("selector"@, e.selector) + field_job(e.job)
        + seq!['}']
}

} // verus!

verus! {

/// Reading a serialized optional string in place.
proof fn lemma_parse_ser_opt_str(s: Seq<char>, i: int, o: Option<Seq<char>>)
    requires
        0 <= i,
        i + ser_opt_str(o).len() <= s.len(),
        s.subrange(i, i + ser_opt_str(o).len()) == ser_opt_str(o),
    ensures
        parse_opt_string_spec(s, i) == Some((o, i + ser_opt_str(o).len())),
{
    match o {
        Some(v) => {
            lemma_parse_ser_str(s, i, v);
            lemma_char_at(s, i, ser_str(v), 0);
        },
        None => {
            reveal_strlit("null");
            lemma_char_at(s, i, "null"@, 0);
            assert(s[i] == 'n');
        },
    }
}


/// One whitespace skip stands still on a non-whitespace character.
proof fn lemma_skip_still(s: Seq<char>, p: int)
    requires
        0 <= p < s.len(),
        !is_ws(s[p]),
    ensures
        skip_ws_spec(s, p) == p,
{
}

/// The first field of an entry object: its key must be `timestamp`.
proof fn lemma_field_first_timestamp(s: Seq<char>, k: int, v: Seq<char>, acc: EntryAcc)
    requires
        acc.timestamp is None,
        0 <= k,
        k + ser_key("timestamp"@).len() + ser_str(v).len() <= s.len(),
        s.subrange(k, k + ser_key("timestamp"@).len()) == ser_key("timestamp"@),
        s.subrange(
            k + ser_key("timestamp"@).len(),
            k + ser_key("timestamp"@).len() + ser_str(v).len(),
        ) == ser_str(v),
    ensures
        parse_entry_fields(s, k, acc) == finish_field(
            s,
            k + ser_key("timestamp"@).len() + ser_str(v).len(),
            EntryAcc { timestamp: Some(v), ..acc },
        ),
{
    lemma_parse_ser_key(s, k, "timestamp"@);
    let cp = k + ser_str("timestamp"@).len();
    lemma_parse_ser_str(s, cp + 1, v);
    lemma_char_at(s, k, ser_key("timestamp"@), 0);
    assert(ser_key("timestamp"@)[0] == '"');
    lemma_skip_still(s, k);
    lemma_skip_still(s, cp);
    lemma_char_at(s, cp + 1, ser_str(v), 0);
    lemma_skip_still(s, cp + 1);
}

/// A later string-valued field.
proof fn lemma_field_str_step(s: Seq<char>, c: int, key: Seq<char>, v: Seq<char>, acc: EntryAcc)
    requires
        key == "action"@,
        acc.action is None,
        0 <= c,
        c + field_str(key, v).len() <= s.len(),
        s.subrange(c, c + field_str(key, v).len()) == field_str(key, v),
    ensures
        finish_field(s, c, acc) == finish_field(
            s,
            c + field_str(key, v).len(),
            EntryAcc { action: Some(v), ..acc },
        ),
{
    let w = field_str(key, v);
    lemma_split_at(s, c, seq![','] + ser_key(key), ser_str(v));
    lemma_split_at(s, c, seq![','], ser_key(key));
    lemma_char_at(s, c, seq![','], 0);
    lemma_skip_still(s, c);
    let k = c + 1;
    lemma_parse_ser_key(s, k, key);
    let cp = k + ser_str(key).len();
    lemma_parse_ser_str(s, cp + 1, v);
    lemma_char_at(s, k, ser_key(key), 0);
    lemma_skip_still(s, k);
    lemma_skip_still(s, cp);
    lemma_char_at(s, cp + 1, ser_str(v), 0);
    lemma_skip_still(s, cp + 1);
    reveal_strlit("timestamp");
    reveal_strlit("page_url");
    reveal_strlit("page_title");
    reveal_strlit("dom_snapshot");
    reveal_strlit("action");
    assert(finish_field(s, c, acc) == parse_entry_fields(s, k, acc));
}

/// A later optional-string field; `key` picks which accumulator slot fills.
proof fn lemma_field_opt_step(
    s: Seq<char>,
    c: int,
    key: Seq<char>,
    o: Option<Seq<char>>,
    acc: EntryAcc,
    acc2: EntryAcc,
)
    requires
        (key == "page_url"@ && acc.page_url is None && acc2 == (EntryAcc {
            page_url: Some(o),
            ..acc
        })) || (key == "page_title"@ && acc.page_title is None && acc2 == (EntryAcc {
            page_title: Some(o),
            ..acc
        })) || (key == "dom_snapshot"@ && acc.dom_snapshot is None && acc2 == (EntryAcc {
            dom_snapshot: Some(o),
            ..acc
        })) || (key == "selector"@ && acc.selector is None && acc2 == (EntryAcc {
            selector: Some(o),
            ..acc
        })),
        0 <= c,
        c + field_opt(key, o).len() <= s.len(),
        s.subrange(c, c + field_opt(key, o).len()) == field_opt(key, o),
    ensures
        finish_field(s, c, acc) == finish_field(s, c + field_opt(key, o).len(), acc2),
{
    let w = field_opt(key, o);
    lemma_split_at(s, c, seq![','] + ser_key(key), ser_opt_str(o));
    lemma_split_at(s, c, seq![','], ser_key(key));
    lemma_char_at(s, c, seq![','], 0);
    lemma_skip_still(s, c);
    let k = c + 1;
    lemma_parse_ser_key(s, k, key);
    let cp = k + ser_str(key).len();
    lemma_parse_ser_opt_str(s, cp + 1, o);
    lemma_char_at(s, k, ser_key(key), 0);
    lemma_skip_still(s, k);
    lemma_skip_still(s, cp);
    match o {
        Some(v) => {
            lemma_char_at(s, cp + 1, ser_str(v), 0);
            lemma_skip_still(s, cp + 1);
        },
        None => {
            reveal_strlit("null");
            lemma_char_at(s, cp + 1, "null"@, 0);
            lemma_skip_still(s, cp + 1);
        },
    }
    reveal_strlit("timestamp");
    reveal_strlit("page_url");
    reveal_strlit("page_title");
    reveal_strlit("dom_snapshot");
    reveal_strlit("action");
    reveal_strlit("selector");
    assert("page_url"@ != "selector"@) by {
        assert("page_url"@[0] == 'p');
        assert("selector"@[0] == 's');
    }
    assert(finish_field(s, c, acc) == parse_entry_fields(s, k, acc));
}

/// The job field.
proof fn lemma_field_job_step(s: Seq<char>, c: int, j: JobView, acc: EntryAcc)
    requires
        acc.job is None,
        0 <= c,
        c + field_job(j).len() <= s.len(),
        s.subrange(c, c + field_job(j).len()) == field_job(j),
    ensures
        finish_field(s, c, acc) == finish_field(
            s,
            c + field_job(j).len(),
            EntryAcc { job: Some(j), ..acc },
        ),
{
    let w = field_job(j);
    lemma_split_at(s, c, seq![','] + ser_key("job"@), ser_job(j));
    lemma_split_at(s, c, seq![','], ser_key("job"@));
    lemma_char_at(s, c, seq![','], 0);
    lemma_skip_still(s, c);
    let k = c + 1;
    lemma_parse_ser_key(s, k, "job"@);
    let cp = k + ser_str("job"@).len();
    lemma_parse_job_ser(s, cp + 1, j);
    lemma_char_at(s, k, ser_key("job"@), 0);
    lemma_skip_still(s, k);
    lemma_skip_still(s, cp);
    lemma_ser_job_shape(j);
    lemma_char_at(s, cp + 1, ser_job(j), 0);
    lemma_skip_still(s, cp + 1);
    reveal_strlit("timestamp");
    reveal_strlit("page_url");
    reveal_strlit("page_title");
    reveal_strlit("dom_snapshot");
    reveal_strlit("action");
    reveal_strlit("selector");
    reveal_strlit("job");
    assert(finish_field(s, c, acc) == parse_entry_fields(s, k, acc));
}

/// Reading back a serialized entry: if `ser_entry(e)` sits in `s` at `i`,
/// the entry parse at `i` yields exactly `e` and stops right after it.
#[verifier::rlimit(60)]
#[verifier::spinoff_prover]
pub proof fn lemma_parse_entry_ser(s: Seq<char>, i: int, e: MemoryEntryView)
    requires
        0 <= i,
        i + ser_entry(e).len() <= s.len(),
        s.subrange(i, i + ser_entry(e).len()) == ser_entry(e),
    ensures
        parse_entry_spec(s, i) == Some((e, i + ser_entry(e).len())),
{
    let q0 = seq!['{'];
    let q1 = ser_key("timestamp"@);
    let q2 = ser_str(e.timestamp);
    let q3 = field_opt("page_url"@, e.page_url);
    let q4 = field_opt("page_title"@, e.page_title);
    let q5 = field_opt("dom_snapshot"@, e.dom_snapshot);
    let q6 = field_str("action"@, e.action);
    let q7 = field_opt("selector"@, e.selector);
    let q8 = field_job(e.job);
    let q9 = seq!['}'];
    let w1 = q0 + q1;
    let w2 = w1 + q2;
    let w3 = w2 + q3;
    let w4 = w3 + q4;
    let w5 = w4 + q5;
    let w6 = w5 + q6;
    let w7 = w6 + q7;
    let w8 = w7 + q8;
    lemma_split_at(s, i, w8, q9);
    lemma_split_at(s, i, w7, q8);
    lemma_split_at(s, i, w6, q7);
    lemma_split_at(s, i, w5, q6);
    lemma_split_at(s, i, w4, q5);
    lemma_split_at(s, i, w3, q4);
    lemma_split_at(s, i, w2, q3);
    lemma_split_at(s, i, w1, q2);
    lemma_split_at(s, i, q0, q1);
    lemma_char_at(s, i, q0, 0);
    lemma_skip_still(s, i);
    let acc0 = empty_acc();
    let acc1 = EntryAcc { timestamp: Some(e.timestamp), ..acc0 };
    let acc2 = EntryAcc { page_url: Some(e.page_url), ..acc1 };
    let acc3 = EntryAcc { page_title: Some(e.page_title), ..acc2 };
    let acc4 = EntryAcc { dom_snapshot: Some(e.dom_snapshot), ..acc3 };
    let acc5 = EntryAcc { action: Some(e.action), ..acc4 };
    let acc6 = EntryAcc { selector: Some(e.selector), ..acc5 };
    let acc7 = EntryAcc { job: Some(e.job), ..acc6 };
    let c1 = i + 1 + q1.len() + q2.len();
    let c2 = c1 + q3.len();
    let c3 = c2 + q4.len();
    let c4 = c3 + q5.len();
    let c5 = c4 + q6.len();
    let c6 = c5 + q7.len();
    let c7 = c6 + q8.len();
    lemma_field_first_timestamp(s, i + 1, e.timestamp, acc0);
    lemma_field_opt_step(s, c1, "page_url"@, e.page_url, acc1, acc2);
    lemma_field_opt_step(s, c2, "page_title"@, e.page_title, acc2, acc3);
    lemma_field_opt_step(s, c3, "dom_snapshot"@, e.dom_snapshot, acc3, acc4);
    lemma_field_str_step(s, c4, "action"@, e.action, acc4);
    lemma_field_opt_step(s, c5, "selector"@, e.selector, acc5, acc6);
    lemma_field_job_step(s, c6, e.job, acc6);
    lemma_char_at(s, c7, q9, 0);
    lemma_skip_still(s, c7);
    assert(finish_field(s, c7, acc7) == Some::<(MemoryEntryView, int)>((e, c7 + 1)));
    assert(parse_entry_spec(s, i) == Some((e, c7 + 1)));
}

} // verus!

verus! {

proof fn lemma_parse_opt_string_progress(s: Seq<char>, i: int)
    ensures
        match parse_opt_string_spec(s, i) {
            Some((_v, j)) => i < j <= s.len(),
            None => true,
        },
{
    if 0 <= i < s.len() && s[i] == '"' {
        lemma_parse_str_body_progress(s, i + 1);
    }
}

proof fn lemma_fields_progress(s: Seq<char>, i: int, acc: EntryAcc)
    requires
        0 <= i <= s.len(),
    ensures
        match parse_entry_fields(s, i, acc) {
            Some((_e, p)) => i < p <= s.len(),
            None => true,
        },
    decreases unseen(acc), 0int,
{
    lemma_skip_ws_bounds(s, i);
    let k = skip_ws_spec(s, i);
    lemma_parse_string_progress(s, k);
    match parse_string_spec(s, k) {
        None => {},
        Some((key, p1)) => {
            lemma_skip_ws_bounds(s, p1);
            let p2 = skip_ws_spec(s, p1);
            if p2 < s.len() && s[p2] == ':' {
                lemma_skip_ws_bounds(s, p2 + 1);
                let p3 = skip_ws_spec(s, p2 + 1);
                lemma_parse_string_progress(s, p3);
                lemma_parse_opt_string_progress(s, p3);
                lemma_parse_job_progress(s, p3);
                if key == "timestamp"@ && acc.timestamp is None {
                    match parse_string_spec(s, p3) {
                        None => {},
                        Some((v, p4)) => {
                            lemma_finish_progress(s, p4, EntryAcc { timestamp: Some(v), ..acc });
                        },
                    }
                } else if key == "page_url"@ && acc.page_url is None {
                    match parse_opt_string_spec(s, p3) {
                        None => {},
                        Some((v, p4)) => {
                            lemma_finish_progress(s, p4, EntryAcc { page_url: Some(v), ..acc });
                        },
                    }
                } else if key == "page_title"@ && acc.page_title is None {
                    match parse_opt_string_spec(s, p3) {
                        None => {},
                        Some((v, p4)) => {
                            lemma_finish_progress(s, p4, EntryAcc { page_title: Some(v), ..acc });
                        },
                    }
                } else if key == "dom_snapshot"@ && acc.dom_snapshot is None {
                    match parse_opt_string_spec(s, p3) {
                        None => {},
                        Some((v, p4)) => {
                            lemma_finish_progress(
                                s,
                                p4,
                                EntryAcc { dom_snapshot: Some(v), ..acc },
                            );
                        },
                    }
                } else if key == "action"@ && acc.action is None {
                    match parse_string_spec(s, p3) {
                        None => {},
                        Some((v, p4)) => {
                            lemma_finish_progress(s, p4, EntryAcc { action: Some(v), ..acc });
                        },
                    }
                } else if key == "selector"@ && acc.selector is None {
                    match parse_opt_string_spec(s, p3) {
                        None => {},
                        Some((v, p4)) => {
                            lemma_finish_progress(s, p4, EntryAcc { selector: Some(v), ..acc });
                        },
                    }
                } else if key == "job"@ && acc.job is None {
                    match parse_job_spec(s, p3) {
                        None => {},
                        Some((v, p4)) => {
                            lemma_finish_progress(s, p4, EntryAcc { job: Some(v), ..acc });
                        },
                    }
                }
            }
        },
    }
}

proof fn lemma_finish_progress(s: Seq<char>, p: int, acc: EntryAcc)
    requires
        0 <= p <= s.len(),
    ensures
        match finish_field(s, p, acc) {
            Some((_e, m)) => p < m <= s.len(),
            None => true,
        },
    decreases unseen(acc), 1int,
{
    lemma_skip_ws_bounds(s, p);
    let q = skip_ws_spec(s, p);
    if q < s.len() && s[q] == ',' {
        lemma_fields_progress(s, q + 1, acc);
    }
}

pub proof fn lemma_parse_entry_progress(s: Seq<char>, i: int)
    requires
        0 <= i <= s.len(),
    ensures
        match parse_entry_spec(s, i) {
            Some((_e, p)) => i < p <= s.len(),
            None => true,
        },
{
    lemma_skip_ws_bounds(s, i);
    let i0 = skip_ws_spec(s, i);
    if i0 < s.len() && s[i0] == '{' {
        lemma_fields_progress(s, i0 + 1, empty_acc());
    }
}

// ---------- lists of entries ----------
/// The comma-joined bodies of a history.
pub open spec fn ser_entries_items(h: Seq<MemoryEntryView>) -> Seq<char>
    decreases h.len(),
{
    if h.len() == 0 {
        Seq::empty()
    } else if h.len() == 1 {
        ser_entry(h[0])
    } else {
        ser_entry(h[0]) + seq![','] + ser_entries_items(h.drop_first())
    }
}

/// The written form of a history: the ordered list of its entries.
pub open spec fn ser_history(h: Seq<MemoryEntryView>) -> Seq<char> {
    seq!['['] + ser_entries_items(h) + seq![']']
}

/// Reads the elements of a non-empty entry list up to and past the closing
/// bracket.
pub open spec fn parse_entries_tail_spec(s: Seq<char>, i: int, fuel: nat) -> Option<
    (Seq<MemoryEntryView>, int),
>
    decreases fuel,
{
    if fuel == 0 {
        None
    } else {
        match parse_entry_spec(s, i) {
            None => None,
            Some((e0, p)) => {
                let q = skip_ws_spec(s, p);
                if q < s.len() && s[q] == ',' {
                    match parse_entries_tail_spec(s, q + 1, (fuel - 1) as nat) {
                        Some((rest, m)) => Some((seq![e0] + rest, m)),
                        None => None,
                    }
                } else if q < s.len() && s[q] == ']' {
                    Some((seq![e0], q + 1))
                } else {
                    None
                }
            },
        }
    }
}

/// Reads an entry list.
pub open spec fn parse_history_spec(s: Seq<char>, i: int, fuel: nat) -> Option<
    (Seq<MemoryEntryView>, int),
> {
    let i0 = skip_ws_spec(s, i);
    if !(i0 < s.len() && s[i0] == '[') {
        None
    } else {
        let i1 = skip_ws_spec(s, i0 + 1);
        if i1 < s.len() && s[i1] == ']' {
            Some((Seq::empty(), i1 + 1))
        } else {
            parse_entries_tail_spec(s, i0 + 1, fuel)
        }
    }
}

/// The history a complete text denotes: the list parse must consume
/// everything but trailing whitespace.
pub open spec fn history_of(s: Seq<char>) -> Option<Seq<MemoryEntryView>> {
    match parse_history_spec(s, 0, (s.len() + 1) as nat) {
        Some((h, j)) => if skip_ws_spec(s, j) == s.len() {
            Some(h)
        } else {
            None
        },
        None => None,
    }
}

/// Fuel does not matter once it exceeds the remaining input length.
pub proof fn lemma_entries_tail_fuel(s: Seq<char>, i: int, f1: nat, f2: nat)
    requires
        0 <= i <= s.len(),
        f1 > s.len() - i,
        f2 > s.len() - i,
    ensures
        parse_entries_tail_spec(s, i, f1) == parse_entries_tail_spec(s, i, f2),
    decreases f1,
{
    lemma_parse_entry_progress(s, i);
    match parse_entry_spec(s, i) {
        None => {},
        Some((_e0, p)) => {
            lemma_skip_ws_bounds(s, p);
            let q = skip_ws_spec(s, p);
            if q < s.len() && s[q] == ',' {
                lemma_entries_tail_fuel(s, q + 1, (f1 - 1) as nat, (f2 - 1) as nat);
            }
        },
    }
}

/// Every serialized entry opens with a brace.
pub proof fn lemma_ser_entry_shape(e: MemoryEntryView)
    ensures
        ser_entry(e).len() >= 2,
        ser_entry(e)[0] == '{',
{
    assert(ser_entry(e)[0] == '{');
}

/// A non-empty item list is at least as long as the entry count.
pub proof fn lemma_ser_entries_items_len(h: Seq<MemoryEntryView>)
    requires
        h.len() > 0,
    ensures
        ser_entries_items(h).len() >= h.len(),
    decreases h.len(),
{
    lemma_ser_entry_shape(h[0]);
    if h.len() > 1 {
        lemma_ser_entries_items_len(h.drop_first());
    }
}

/// Appending one entry to an item list appends its body (and a comma if
/// the list was not empty).
pub proof fn lemma_ser_entries_items_snoc(a: Seq<MemoryEntryView>, e: MemoryEntryView)
    ensures
        ser_entries_items(a.push(e)) == if a.len() == 0 {
            ser_entry(e)
        } else {
            ser_entries_items(a) + seq![','] + ser_entry(e)
        },
    decreases a.len(),
{
    let w = a.push(e);
    if a.len() == 0 {
        assert(w.len() == 1);
        assert(w[0] == e);
    } else {
        assert(w.drop_first() =~= a.drop_first().push(e));
        lemma_ser_entries_items_snoc(a.drop_first(), e);
        if a.len() == 1 {
            assert(ser_entries_items(w) =~= ser_entries_items(a) + seq![','] + ser_entry(e));
        } else {
            assert(ser_entries_items(w) =~= ser_entries_items(a) + seq![','] + ser_entry(e));
        }
    }
}

/// Reading back a serialized entry list followed by the closing bracket.
#[verifier::rlimit(100)]
#[verifier::spinoff_prover]
proof fn lemma_parse_entries_tail_ser(s: Seq<char>, i: int, h: Seq<MemoryEntryView>, fuel: nat)
    requires
        h.len() > 0,
        0 <= i,
        i + ser_entries_items(h).len() + 1 <= s.len(),
        s.subrange(i, i + ser_entries_items(h).len() + 1) == ser_entries_items(h) + seq![']'],
        fuel >= h.len(),
    ensures
        parse_entries_tail_spec(s, i, fuel) == Some((h, i + ser_entries_items(h).len() + 1)),
    decreases h.len(),
{
    let items = ser_entries_items(h);
    if h.len() == 1 {
        let a = ser_entry(h[0]);
        assert(items == a);
        lemma_split_at(s, i, a, seq![']']);
        lemma_parse_entry_ser(s, i, h[0]);
        lemma_char_at(s, i + a.len(), seq![']'], 0);
        assert(skip_ws_spec(s, i + a.len()) == i + a.len());
        assert(seq![h[0]] =~= h);
    } else {
        let a = ser_entry(h[0]);
        let c = ser_entries_items(h.drop_first());
        assert(items == a + seq![','] + c);
        assert(items + seq![']'] =~= (a + seq![',']) + (c + seq![']']));
        lemma_split_at(s, i, a + seq![','], c + seq![']']);
        lemma_split_at(s, i, a, seq![',']);
        lemma_parse_entry_ser(s, i, h[0]);
        let p = i + a.len();
        lemma_char_at(s, p, seq![','], 0);
        assert(skip_ws_spec(s, p) == p);
        lemma_parse_entries_tail_ser(s, p + 1, h.drop_first(), (fuel - 1) as nat);
        assert(seq![h[0]] + h.drop_first() =~= h);
        assert(p + 1 + c.len() + 1 == i + items.len() + 1);
    }
}

/// Round trip of a history: reading the written form of `h` gives back
/// exactly `h`. This is the law behind persisting and restoring the
/// interaction memory.
pub proof fn lemma_history_round_trip(h: Seq<MemoryEntryView>)
    ensures
        history_of(ser_history(h)) == Some(h),
{
    let s = ser_history(h);
    let items = ser_entries_items(h);
    assert(s.subrange(0, s.len() as int) =~= s);
    assert(s =~= seq!['['] + (items + seq![']']));
    lemma_split_at(s, 0, seq!['['], items + seq![']']);
    lemma_char_at(s, 0, seq!['['], 0);
    assert(skip_ws_spec(s, 0) == 0);
    if h.len() == 0 {
        assert(items.len() == 0);
        lemma_char_at(s, 1, items + seq![']'], 0);
        assert(s[1] == ']');
        assert(skip_ws_spec(s, 1) == 1);
        assert(skip_ws_spec(s, 2) == 2);
        assert(parse_history_spec(s, 0, (s.len() + 1) as nat) == Some(
            (Seq::<MemoryEntryView>::empty(), 2int),
        ));
    } else {
        lemma_ser_entries_items_len(h);
        lemma_ser_entry_shape(h[0]);
        lemma_char_at(s, 1, items + seq![']'], 0);
        if h.len() == 1 {
            assert(items[0] == ser_entry(h[0])[0]);
        } else {
            assert(items == ser_entry(h[0]) + seq![','] + ser_entries_items(h.drop_first()));
            assert(items[0] == ser_entry(h[0])[0]);
        }
        assert(s[1] == '{');
        assert(skip_ws_spec(s, 1) == 1);
        lemma_parse_entries_tail_ser(s, 1, h, (s.len() + 1) as nat);
        assert(skip_ws_spec(s, s.len() as int) == s.len());
    }
}

} // verus!

verus! {

use crate::memory::MemoryEntry;

/// Appends `ser_entry(e@)` to `out`.
#[verifier::rlimit(100)]
#[verifier::spinoff_prover]
pub fn emit_entry(out: &mut Vec<char>, e: &MemoryEntry)
    ensures
        final(out)@ == old(out)@ + ser_entry(e@),
{
    out.push('{');
    emit_str(out, "timestamp");
    out.push(':');
    emit_str(out, e.timestamp.as_str());
    out.push(',');
    emit_str(out, "page_url");
    out.push(':');
    emit_opt_str(out, &e.page_url);
    out.push(',');
    emit_str(out, "page_title");
    out.push(':');
    emit_opt_str(out, &e.page_title);
    out.push(',');
    emit_str(out, "dom_snapshot");
    out.push(':');
    emit_opt_str(out, &e.dom_snapshot);
    out.push(',');
    emit_str(out, "action");
    out.push(':');
    emit_str(out, e.action.as_str());
    out.push(',');
    emit_str(out, "selector");
    out.push(':');
    emit_opt_str(out, &e.selector);
    out.push(',');
    emit_str(out, "job");
    out.push(':');
    emit_job(out, &e.job);
    out.push('}');
    proof {
        assert(out@ =~= old(out)@ + ser_entry(e@));
    }
}

/// Appends `ser_history` of the entries to `out`.
pub fn emit_history(out: &mut Vec<char>, entries: &Vec<MemoryEntry>)
    ensures
        final(out)@ == old(out)@ + ser_history(entries@.map_values(|e: MemoryEntry| e@)),
{
    out.push('[');
    let n: usize = entries.len();
    let mut k: usize = 0;
    while k < n
        invariant
            k <= n,
            n == entries@.len(),
            out@ == old(out)@ + seq!['['] + ser_entries_items(
                entries@.subrange(0, k as int).map_values(|e: MemoryEntry| e@),
            ),
        decreases n - k,
    {
        if k > 0 {
            out.push(',');
        }
        emit_entry(out, &entries[k]);
        proof {
            let prev = entries@.subrange(0, k as int).map_values(|e: MemoryEntry| e@);
            let cur = entries@.subrange(0, k + 1).map_values(|e: MemoryEntry| e@);
            assert(cur =~= prev.push(entries@[k as int]@));
            lemma_ser_entries_items_snoc(prev, entries@[k as int]@);
            assert(out@ =~= old(out)@ + seq!['['] + ser_entries_items(cur));
        }
        k = k + 1;
    }
    out.push(']');
    proof {
        assert(entries@.subrange(0, n as int) =~= entries@);
        assert(out@ =~= old(out)@ + ser_history(entries@.map_values(|e: MemoryEntry| e@)));
    }
}

/// Reads a string value or `null` starting at `pos`.
pub fn parse_opt_string_at(v: &Vec<char>, pos: usize) -> (r: Option<(Option<String>, usize)>)
    requires
        pos <= v@.len(),
    ensures
        match r {
            Some((o, j)) => parse_opt_string_spec(v@, pos as int) == Some(
                (o.deep_view(), j as int),
            ) && j <= v@.len(),
            None => parse_opt_string_spec(v@, pos as int) is None,
        },
{
    if pos < v.len() && v[pos] == '"' {
        match parse_string_at(v, pos) {
            Some((w, j)) => Some((Some(crate::strutil::chars_to_string(&w)), j)),
            None => None,
        }
    } else if pos < v.len() && v.len() - pos >= 4 && v[pos] == 'n' && v[pos + 1] == 'u' && v[pos
        + 2] == 'l' && v[pos + 3] == 'l' {
        proof {
            reveal_strlit("null");
            assert(v@.subrange(pos as int, pos + 4) =~= "null"@);
        }
        Some((None, pos + 4))
    } else {
        proof {
            reveal_strlit("null");
            if 0 <= pos && pos + 4 <= v@.len() && v@.subrange(pos as int, pos + 4) == "null"@ {
                assert(v@.subrange(pos as int, pos + 4)[0] == v@[pos as int]);
                assert(v@.subrange(pos as int, pos + 4)[1] == v@[pos + 1]);
                assert(v@.subrange(pos as int, pos + 4)[2] == v@[pos + 2]);
                assert(v@.subrange(pos as int, pos + 4)[3] == v@[pos + 3]);
            }
        }
        None
    }
}

/// The accumulator the executable entry reader has built so far.
pub open spec fn acc_of(
    ts: Option<String>,
    pu: Option<Option<String>>,
    pt: Option<Option<String>>,
    ds: Option<Option<String>>,
    ac: Option<String>,
    se: Option<Option<String>>,
    jb: Option<BrowserJob>,
) -> EntryAcc {
    EntryAcc {
        timestamp: ts.deep_view(),
        page_url: pu.deep_view(),
        page_title: pt.deep_view(),
        dom_snapshot: ds.deep_view(),
        action: ac.deep_view(),
        selector: se.deep_view(),
        job: match jb {
            Some(j) => Some(j@),
            None => None,
        },
    }
}

/// Reads one entry object starting at `pos`.
#[verifier::rlimit(100)]
#[verifier::spinoff_prover]
pub fn parse_entry_at(v: &Vec<char>, pos: usize) -> (r: Option<(MemoryEntry, usize)>)
    requires
        pos <= v@.len(),
    ensures
        match r {
            Some((e, j)) => parse_entry_spec(v@, pos as int) == Some((e@, j as int)) && j
                <= v@.len(),
            None => parse_entry_spec(v@, pos as int) is None,
        },
{
    let i0 = skip_ws(v, pos);
    if i0 >= v.len() || v[i0] != '{' {
        return None;
    }
    let mut ts: Option<String> = None;
    let mut pu: Option<Option<String>> = None;
    let mut pt: Option<Option<String>> = None;
    let mut ds: Option<Option<String>> = None;
    let mut ac: Option<String> = None;
    let mut se: Option<Option<String>> = None;
    let mut jb: Option<BrowserJob> = None;
    let mut cur: usize = i0 + 1;
    loop
        invariant
            cur <= v@.len(),
            i0 < v@.len(),
            v@[i0 as int] == '{',
            skip_ws_spec(v@, pos as int) == i0 as int,
            parse_entry_fields(v@, i0 + 1, empty_acc()) == parse_entry_fields(
                v@,
                cur as int,
                acc_of(ts, pu, pt, ds, ac, se, jb),
            ),
        decreases unseen(acc_of(ts, pu, pt, ds, ac, se, jb)),
    {
        let ghost acc = acc_of(ts, pu, pt, ds, ac, se, jb);
        let k = skip_ws(v, cur);
        let (key, p1) = match parse_string_at(v, k) {
            Some(x) => x,
            None => {
                return None;
            },
        };
        let p2 = skip_ws(v, p1);
        if p2 >= v.len() || v[p2] != ':' {
            return None;
        }
        let p3 = skip_ws(v, p2 + 1);
        let p4: usize;
        if crate::strutil::chars_eq_str(&key, "timestamp") {
            if ts.is_some() {
                return None;
            }
            match parse_string_at(v, p3) {
                Some((w, p)) => {
                    ts = Some(crate::strutil::chars_to_string(&w));
                    p4 = p;
                },
                None => {
                    return None;
                },
            }
        } else if crate::strutil::chars_eq_str(&key, "page_url") {
            if pu.is_some() {
                return None;
            }
            match parse_opt_string_at(v, p3) {
                Some((o, p)) => {
                    pu = Some(o);
                    p4 = p;
                },
                None => {
                    return None;
                },
            }
        } else if crate::strutil::chars_eq_str(&key, "page_title") {
            if pt.is_some() {
                return None;
            }
            match parse_opt_string_at(v, p3) {
                Some((o, p)) => {
                    pt = Some(o);
                    p4 = p;
                },
                None => {
                    return None;
                },
            }
        } else if crate::strutil::chars_eq_str(&key, "dom_snapshot") {
            if ds.is_some() {
                return None;
            }
            match parse_opt_string_at(v, p3) {
                Some((o, p)) => {
                    ds = Some(o);
                    p4 = p;
                },
                None => {
                    return None;
                },
            }
        } else if crate::strutil::chars_eq_str(&key, "action") {
            if ac.is_some() {
                return None;
            }
            match parse_string_at(v, p3) {
                Some((w, p)) => {
                    ac = Some(crate::strutil::chars_to_string(&w));
                    p4 = p;
                },
                None => {
                    return None;
                },
            }
        } else if crate::strutil::chars_eq_str(&key, "selector") {
            if se.is_some() {
                return None;
            }
            match parse_opt_string_at(v, p3) {
                Some((o, p)) => {
                    se = Some(o);
                    p4 = p;
                },
                None => {
                    return None;
                },
            }
        } else if crate::strutil::chars_eq_str(&key, "job") {
            if jb.is_some() {
                return None;
            }
            match parse_job_at(v, p3) {
                Some((j, p)) => {
                    jb = Some(j);
                    p4 = p;
                },
                None => {
                    return None;
                },
            }
        } else {
            return None;
        }
        proof {
            let acc2 = acc_of(ts, pu, pt, ds, ac, se, jb);
            assert(parse_entry_fields(v@, cur as int, acc) == finish_field(v@, p4 as int, acc2));
        }
        let q = skip_ws(v, p4);
        if q < v.len() && v[q] == ',' {
            cur = q + 1;
        } else if q < v.len() && v[q] == '}' {
            let e_ts = match ts {
                Some(x) => x,
                None => {
                    return None;
                },
            };
            let e_pu = match pu {
                Some(x) => x,
                None => {
                    return None;
                },
            };
            let e_pt = match pt {
                Some(x) => x,
                None => {
                    return None;
                },
            };
            let e_ds = match ds {
                Some(x) => x,
                None => {
                    return None;
                },
            };
            let e_ac = match ac {
                Some(x) => x,
                None => {
                    return None;
                },
            };
            let e_se = match se {
                Some(x) => x,
                None => {
                    return None;
                },
            };
            let e_jb = match jb {
                Some(x) => x,
                None => {
                    return None;
                },
            };
            let entry = MemoryEntry {
                timestamp: e_ts,
                page_url: e_pu,
                page_title: e_pt,
                dom_snapshot: e_ds,
                action: e_ac,
                selector: e_se,
                job: e_jb,
            };
            return Some((entry, q + 1));
        } else {
            return None;
        }
    }
}

/// Reads a complete history text. Succeeds exactly on the texts the
/// grammar admits, with only whitespace after the list.
pub fn parse_history(v: &Vec<char>) -> (r: Option<Vec<MemoryEntry>>)
    ensures
        match r {
            Some(es) => history_of(v@) == Some(es@.map_values(|e: MemoryEntry| e@)),
            None => history_of(v@) is None,
        },
{
    let i0 = skip_ws(v, 0);
    if i0 >= v.len() || v[i0] != '[' {
        return None;
    }
    let i1 = skip_ws(v, i0 + 1);
    if i1 < v.len() && v[i1] == ']' {
        let t = skip_ws(v, i1 + 1);
        if t == v.len() {
            let empty: Vec<MemoryEntry> = Vec::new();
            proof {
                assert(empty@.map_values(|e: MemoryEntry| e@) =~= Seq::<MemoryEntryView>::empty());
            }
            return Some(empty);
        } else {
            return None;
        }
    }
    let ghost fuel0: nat = (v@.len() + 1) as nat;
    let mut out: Vec<MemoryEntry> = Vec::new();
    let mut pos: usize = i0 + 1;
    let ghost start: int = i0 + 1;
    loop
        invariant
            0 <= start <= pos <= v@.len(),
            fuel0 == v@.len() + 1,
            fuel0 - out@.len() > v@.len() - pos,
            i0 < v@.len(),
            v@[i0 as int] == '[',
            skip_ws_spec(v@, 0) == i0 as int,
            start == i0 + 1,
            skip_ws_spec(v@, start) == i1 as int,
            !(i1 < v@.len() && v@[i1 as int] == ']'),
            match parse_entries_tail_spec(v@, pos as int, (fuel0 - out@.len()) as nat) {
                Some((rest, m)) => parse_entries_tail_spec(v@, start, fuel0) == Some(
                    (out@.map_values(|e: MemoryEntry| e@) + rest, m),
                ),
                None => parse_entries_tail_spec(v@, start, fuel0) is None,
            },
        decreases v@.len() - pos,
    {
        let ghost fuel_cur: nat = (fuel0 - out@.len()) as nat;
        proof {
            lemma_parse_entry_progress(v@, pos as int);
        }
        let (entry, p) = match parse_entry_at(v, pos) {
            Some(x) => x,
            None => {
                return None;
            },
        };
        let q = skip_ws(v, p);
        if q < v.len() && v[q] == ',' {
            proof {
                let rec: nat = (fuel_cur - 1) as nat;
                let canon: nat = (fuel0 - (out@.len() + 1)) as nat;
                lemma_entries_tail_fuel(v@, q + 1, rec, canon);
                let ghost out2 = out@.push(entry).map_values(|e: MemoryEntry| e@);
                assert(out2 =~= out@.map_values(|e: MemoryEntry| e@).push(entry@));
                match parse_entries_tail_spec(v@, q + 1, canon) {
                    Some((rest, m)) => {
                        assert(out@.map_values(|e: MemoryEntry| e@) + (seq![entry@] + rest) =~= out2
                            + rest);
                    },
                    None => {},
                }
            }
            out.push(entry);
            pos = q + 1;
        } else if q < v.len() && v[q] == ']' {
            proof {
                let ghost out2 = out@.push(entry).map_values(|e: MemoryEntry| e@);
                assert(out2 =~= out@.map_values(|e: MemoryEntry| e@).push(entry@));
                assert(out@.map_values(|e: MemoryEntry| e@) + seq![entry@] =~= out2);
            }
            out.push(entry);
            let t = skip_ws(v, q + 1);
            if t == v.len() {
                return Some(out);
            } else {
                return None;
            }
        } else {
            return None;
        }
    }
}

} // verus!
