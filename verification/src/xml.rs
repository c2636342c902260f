//! XML text escaping and the Subsonic response envelopes.
use vstd::prelude::*;
use crate::numbers::{dec, fmt_u64};
use crate::strings::{chars_of, push_chars, push_str_chars, string_from};

verus! {

/// What one character becomes inside an XML attribute value.
pub open spec fn escape_char(c: char) -> Seq<char> {
    if c == '&' {
        "&amp;"@
    } else if c == '<' {
        "&lt;"@
    } else if c == '>' {
        "&gt;"@
    } else if c == '"' {
        "&quot;"@
    } else if c == '\'' {
        "&apos;"@
    } else {
        seq![c]
    }
}

/// Every character of `s` replaced by its escape, in order.
pub open spec fn escape_spec(s: Seq<char>) -> Seq<char>
    decreases s.len(),
{
    if s.len() == 0 {
        Seq::empty()
    } else {
        escape_spec(s.drop_last()) + escape_char(s.last())
    }
}

/// A character that would end or open markup inside an attribute value.
pub open spec fn is_markup(c: char) -> bool {
    c == '<' || c == '>' || c == '"' || c == '\''
}

proof fn lemma_escape_char_clean(c: char)
    ensures
        forall|i: int| 0 <= i < escape_char(c).len() ==> !is_markup(#[trigger] escape_char(c)[i]),
{
    reveal_strlit("&amp;");
    reveal_strlit("&lt;");
    reveal_strlit("&gt;");
    reveal_strlit("&quot;");
    reveal_strlit("&apos;");
}

/// Escaped text holds none of `<`, `>`, `"` or `'`, so it can stand in an
/// element or an attribute value without changing the document's shape.
pub proof fn lemma_escaped_text_has_no_markup(s: Seq<char>)
    ensures
        forall|i: int| 0 <= i < escape_spec(s).len() ==> !is_markup(#[trigger] escape_spec(s)[i]),
    decreases s.len(),
{
    if s.len() > 0 {
        lemma_escaped_text_has_no_markup(s.drop_last());
        lemma_escape_char_clean(s.last());
        let a = escape_spec(s.drop_last());
        let b = escape_char(s.last());
        assert forall|i: int| 0 <= i < escape_spec(s).len() implies !is_markup(
            #[trigger] escape_spec(s)[i],
        ) by {
            if i < a.len() {
                assert(escape_spec(s)[i] == a[i]);
            } else {
                assert(escape_spec(s)[i] == b[i - a.len()]);
            }
        }
    }
}

/// Text without the five special characters is left as it is.
pub proof fn lemma_plain_text_unchanged(s: Seq<char>)
    requires
        forall|i: int| 0 <= i < s.len() ==> !is_markup(#[trigger] s[i]) && s[i] != '&',
    ensures
        escape_spec(s) == s,
    decreases s.len(),
{
    if s.len() > 0 {
        let d = s.drop_last();
        assert forall|i: int| 0 <= i < d.len() implies !is_markup(#[trigger] d[i]) && d[i] != '&' by {
            assert(d[i] == s[i]);
        }
        lemma_plain_text_unchanged(d);
        assert(!is_markup(s[s.len() - 1]) && s[s.len() - 1] != '&');
        assert(s =~= d + seq![s.last()]);
    }
}

/// Reads the five entities back as the characters they stand for; every
/// other character stands for itself.
pub open spec fn unescape_spec(t: Seq<char>) -> Seq<char>
    decreases t.len(),
{
    if t.len() == 0 {
        Seq::empty()
    } else if t.len() >= 5 && t.take(5) == "&amp;"@ {
        seq!['&'] + unescape_spec(t.skip(5))
    } else if t.len() >= 4 && t.take(4) == "&lt;"@ {
        seq!['<'] + unescape_spec(t.skip(4))
    } else if t.len() >= 4 && t.take(4) == "&gt;"@ {
        seq!['>'] + unescape_spec(t.skip(4))
    } else if t.len() >= 6 && t.take(6) == "&quot;"@ {
        seq!['"'] + unescape_spec(t.skip(6))
    } else if t.len() >= 6 && t.take(6) == "&apos;"@ {
        seq!['\''] + unescape_spec(t.skip(6))
    } else {
        seq![t[0]] + unescape_spec(t.skip(1))
    }
}

proof fn lemma_escape_concat(a: Seq<char>, b: Seq<char>)
    ensures
        escape_spec(a + b) == escape_spec(a) + escape_spec(b),
    decreases b.len(),
{
    if b.len() == 0 {
        assert(a + b =~= a);
        assert(escape_spec(a) + escape_spec(b) =~= escape_spec(a));
    } else {
        assert((a + b).drop_last() =~= a + b.drop_last());
        assert((a + b).last() == b.last());
        lemma_escape_concat(a, b.drop_last());
        assert(escape_spec(a) + escape_spec(b.drop_last()) + escape_char(b.last()) =~= escape_spec(a)
            + (escape_spec(b.drop_last()) + escape_char(b.last())));
    }
}

/// An escaped character, read back, is that character.
proof fn lemma_unescape_char(c: char, rest: Seq<char>)
    ensures
        unescape_spec(escape_char(c) + rest) == seq![c] + unescape_spec(rest),
{
    reveal_strlit("&amp;");
    reveal_strlit("&lt;");
    reveal_strlit("&gt;");
    reveal_strlit("&quot;");
    reveal_strlit("&apos;");
    let t = escape_char(c) + rest;
    if c == '&' {
        assert(t.take(5) =~= "&amp;"@);
        assert(t.skip(5) =~= rest);
    } else if c == '<' {
        assert(t[1] == 'l');
        assert(t.take(4) =~= "&lt;"@);
        assert(t.skip(4) =~= rest);
    } else if c == '>' {
        assert(t[1] == 'g');
        assert(t.take(4) =~= "&gt;"@);
        assert(t.skip(4) =~= rest);
    } else if c == '"' {
        assert(t[1] == 'q');
        assert(t.take(6) =~= "&quot;"@);
        assert(t.skip(6) =~= rest);
    } else if c == '\'' {
        assert(t[1] == 'a' && t[2] == 'p');
        assert(t.take(6) =~= "&apos;"@);
        assert(t.skip(6) =~= rest);
    } else {
        assert(t[0] == c);
        assert(t.len() >= 5 ==> t.take(5)[0] == c);
        assert(t.len() >= 4 ==> t.take(4)[0] == c);
        assert(t.len() >= 6 ==> t.take(6)[0] == c);
        assert(t.skip(1) =~= rest);
    }
}

/// Reading the entities of escaped text back gives the text itself: the
/// escaping loses nothing.
pub proof fn lemma_unescape_escape(s: Seq<char>)
    ensures
        unescape_spec(escape_spec(s)) == s,
    decreases s.len(),
{
    if s.len() > 0 {
        let c = s[0];
        let r = s.drop_first();
        assert(s =~= seq![c] + r);
        lemma_escape_concat(seq![c], r);
        assert(seq![c].drop_last() =~= Seq::<char>::empty());
        assert(seq![c].last() == c);
        assert(escape_spec(Seq::<char>::empty()) =~= Seq::<char>::empty());
        assert(escape_spec(seq![c]) =~= Seq::<char>::empty() + escape_char(c));
        assert(escape_spec(seq![c]) =~= escape_char(c));
        lemma_unescape_char(c, escape_spec(r));
        lemma_unescape_escape(r);
    } else {
        assert(escape_spec(s) =~= Seq::<char>::empty());
    }
}

/// Appends the escaped form of `cs` to `out`.
pub fn push_escaped(out: &mut Vec<char>, cs: &[char])
    ensures
        final(out)@ == old(out)@ + escape_spec(cs@),
{
    let mut i: usize = 0;
    while i < cs.len()
        invariant
            i <= cs@.len(),
            out@ == old(out)@ + escape_spec(cs@.take(i as int)),
        decreases cs@.len() - i,
    {
        let c = cs[i];
        let ghost before = out@;
        if c == '&' {
            push_str_chars(out, "&amp;");
        } else if c == '<' {
            push_str_chars(out, "&lt;");
        } else if c == '>' {
            push_str_chars(out, "&gt;");
        } else if c == '"' {
            push_str_chars(out, "&quot;");
        } else if c == '\'' {
            push_str_chars(out, "&apos;");
        } else {
            out.push(c);
        }
        assert(out@ == before + escape_char(c));
        assert(cs@.take(i + 1).drop_last() == cs@.take(i as int));
        i += 1;
    }
    assert(cs@.take(cs@.len() as int) == cs@);
}

/// Escapes the five characters XML gives meaning to.
pub fn escape_xml(s: &str) -> (out: String)
    ensures
        out@ == escape_spec(s@),
{
    let cs = chars_of(s);
    let mut out: Vec<char> = Vec::new();
    push_escaped(&mut out, cs.as_slice());
    string_from(out.as_slice())
}

/// Everything before the body of a successful response.
pub open spec fn ok_head() -> Seq<char> {
    "<?xml version=\"1.0\" encoding=\"UTF-8\"?>\n<subsonic-response xmlns=\"http://subsonic.org/restapi\" status=\"ok\" version=\"1.16.1\" type=\"melodie\" serverVersion=\"0.1.0\" openSubsonic=\"true\">"@
}

pub open spec fn envelope_tail() -> Seq<char> {
    "</subsonic-response>"@
}

pub open spec fn ok_envelope_spec(body: Seq<char>) -> Seq<char> {
    ok_head() + body + envelope_tail()
}

/// Everything before the error code of a failed response.
pub open spec fn error_head() -> Seq<char> {
    "<?xml version=\"1.0\" encoding=\"UTF-8\"?>\n<subsonic-response xmlns=\"http://subsonic.org/restapi\" status=\"failed\" version=\"1.16.1\" type=\"melodie\"><error code=\""@
}

pub open spec fn error_envelope_spec(code: u32, message: Seq<char>) -> Seq<char> {
    error_head() + dec(code as nat) + "\" message=\""@ + escape_spec(message) + "\"/>"@
        + envelope_tail()
}

/// Wraps `body` in a successful Subsonic response.
pub fn ok_envelope(body: &str) -> (out: String)
    ensures
        out@ == ok_envelope_spec(body@),
{
    let mut v: Vec<char> = Vec::new();
    push_ok_envelope(&mut v, body);
    string_from(v.as_slice())
}

pub fn push_ok_envelope(v: &mut Vec<char>, body: &str)
    ensures
        final(v)@ == old(v)@ + ok_envelope_spec(body@),
{
    push_str_chars(v, "<?xml version=\"1.0\" encoding=\"UTF-8\"?>\n<subsonic-response xmlns=\"http://subsonic.org/restapi\" status=\"ok\" version=\"1.16.1\" type=\"melodie\" serverVersion=\"0.1.0\" openSubsonic=\"true\">");
    push_str_chars(v, body);
    push_str_chars(v, "</subsonic-response>");
}

/// A failed Subsonic response with the given error code and message.
pub fn error_envelope(code: u32, message: &str) -> (out: String)
    ensures
        out@ == error_envelope_spec(code, message@),
{
    let mut v: Vec<char> = Vec::new();
    push_str_chars(&mut v, "<?xml version=\"1.0\" encoding=\"UTF-8\"?>\n<subsonic-response xmlns=\"http://subsonic.org/restapi\" status=\"failed\" version=\"1.16.1\" type=\"melodie\"><error code=\"");
    let d = fmt_u64(code as u64);
    push_chars(&mut v, d.as_slice());
    push_str_chars(&mut v, "\" message=\"");
    let m = chars_of(message);
    push_escaped(&mut v, m.as_slice());
    push_str_chars(&mut v, "\"/>");
    push_str_chars(&mut v, "</subsonic-response>");
    string_from(v.as_slice())
}

} // verus!
