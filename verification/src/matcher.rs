//! Matching a wanted track against search results: the cleaned search
//! query, the word tokens titles are compared by, and the yes/no signals a
//! candidate is scored from.
use vstd::prelude::*;
use vstd::utf8::encode_utf8;
use crate::strings::{
    chars_of, contains_chars, contains_str, ends_with, has_suffix, is_whitespace, is_ws, last_occ,
    lower, lower_chars, push_str_chars, rfind, rfind_chars, slice_chars, string_from,
};

verus! {

// ------------------------------------------------------------ the query

/// Scanning `s` for `open ... close` groups: the characters kept so far
/// and the nesting depth. A stray `close` at depth 0 is dropped and leaves
/// the depth at 0.
pub open spec fn strip_state(s: Seq<char>, open: char, close: char) -> (Seq<char>, nat)
    decreases s.len(),
{
    if s.len() == 0 {
        (Seq::empty(), 0)
    } else {
        let (o, d) = strip_state(s.drop_last(), open, close);
        let c = s.last();
        if c == open {
            (o, d + 1)
        } else if c == close {
            (o, if d > 0 { (d - 1) as nat } else { 0 })
        } else if d == 0 {
            (o.push(c), d)
        } else {
            (o, d)
        }
    }
}

/// `s` without its `open ... close` groups (nested ones included) and
/// without any stray `open` or `close`.
pub open spec fn strip_delimited(s: Seq<char>, open: char, close: char) -> Seq<char> {
    strip_state(s, open, close).0
}

/// A ` - ...` suffix that only marks a remaster, remix or live version.
pub open spec fn noise_suffix(suffix: Seq<char>) -> bool {
    let l = lower(suffix);
    contains_str(l, "remaster"@) || contains_str(l, "remix"@) || contains_str(l, "live"@)
}

/// `s` cut before its last ` - ` when what follows is noise.
pub open spec fn drop_noise(s: Seq<char>) -> Seq<char> {
    match rfind(s, " - "@) {
        Some(d) => if noise_suffix(s.skip(d + 3)) {
            s.take(d)
        } else {
            s
        },
        None => s,
    }
}

/// Scanning `s` for its words: the output so far, and whether whitespace
/// was seen since the last word character.
pub open spec fn collapse_state(s: Seq<char>) -> (Seq<char>, bool)
    decreases s.len(),
{
    if s.len() == 0 {
        (Seq::empty(), false)
    } else {
        let (o, gap) = collapse_state(s.drop_last());
        let c = s.last();
        if is_ws(c) {
            (o, true)
        } else if gap && o.len() > 0 {
            (o.push(' ').push(c), false)
        } else {
            (o.push(c), false)
        }
    }
}

/// The words of `s` (runs of non-whitespace) joined by single spaces.
pub open spec fn collapse_ws(s: Seq<char>) -> Seq<char> {
    collapse_state(s).0
}

/// The search query for a track: artist and title without parenthesized
/// or bracketed parts, without a trailing remaster/remix/live marker, with
/// whitespace collapsed.
pub open spec fn clean_query_spec(artist: Seq<char>, title: Seq<char>) -> Seq<char> {
    let combined = artist + seq![' '] + title;
    collapse_ws(drop_noise(strip_delimited(strip_delimited(combined, '(', ')'), '[', ']')))
}

fn strip_delimited_exec(cs: &[char], open: char, close: char) -> (out: Vec<char>)
    ensures
        out@ == strip_delimited(cs@, open, close),
{
    let mut out: Vec<char> = Vec::new();
    let mut depth: usize = 0;
    let mut i: usize = 0;
    while i < cs.len()
        invariant
            i <= cs@.len(),
            out@ == strip_state(cs@.take(i as int), open, close).0,
            depth == strip_state(cs@.take(i as int), open, close).1,
            depth <= i,
        decreases cs@.len() - i,
    {
        assert(cs@.take(i + 1).drop_last() == cs@.take(i as int));
        assert(cs@.take(i + 1).last() == cs@[i as int]);
        let c = cs[i];
        if c == open {
            depth = depth + 1;
        } else if c == close {
            if depth > 0 {
                depth = depth - 1;
            }
        } else if depth == 0 {
            out.push(c);
        }
        i += 1;
    }
    assert(cs@.take(cs@.len() as int) == cs@);
    out
}

fn drop_noise_exec(cs: Vec<char>) -> (out: Vec<char>)
    ensures
        out@ == drop_noise(cs@),
{
    let sep = chars_of(" - ");
    proof {
        reveal_strlit(" - ");
    }
    let n = cs.len();
    match rfind_chars(cs.as_slice(), sep.as_slice()) {
        Some(d) => {
            assert(d + 3 <= n) by {
                assert(crate::strings::occurs_at(cs@, sep@, d as int)) by {
                    lemma_last_occ_occurs(cs@, sep@, cs@.len() as int);
                }
            }
            let suffix = slice_chars(cs.as_slice(), d + 3, cs.len());
            let l = lower_chars(suffix.as_slice());
            let a = chars_of("remaster");
            let b = chars_of("remix");
            let c = chars_of("live");
            if contains_chars(l.as_slice(), a.as_slice()) || contains_chars(l.as_slice(), b.as_slice())
                || contains_chars(l.as_slice(), c.as_slice()) {
                slice_chars(cs.as_slice(), 0, d)
            } else {
                cs
            }
        },
        None => cs,
    }
}

/// A position `last_occ` reports holds the pattern.
proof fn lemma_last_occ_occurs(s: Seq<char>, p: Seq<char>, i: int)
    ensures
        last_occ_some_occurs(s, p, i),
    decreases i + 1,
{
    if i >= 0 && !crate::strings::occurs_at(s, p, i) {
        lemma_last_occ_occurs(s, p, i - 1);
    }
}

spec fn last_occ_some_occurs(s: Seq<char>, p: Seq<char>, i: int) -> bool {
    match crate::strings::last_occ(s, p, i) {
        Some(k) => crate::strings::occurs_at(s, p, k),
        None => true,
    }
}

fn collapse_ws_exec(cs: &[char]) -> (out: Vec<char>)
    ensures
        out@ == collapse_ws(cs@),
{
    let mut out: Vec<char> = Vec::new();
    let mut gap = false;
    let mut i: usize = 0;
    while i < cs.len()
        invariant
            i <= cs@.len(),
            out@ == collapse_state(cs@.take(i as int)).0,
            gap == collapse_state(cs@.take(i as int)).1,
        decreases cs@.len() - i,
    {
        assert(cs@.take(i + 1).drop_last() == cs@.take(i as int));
        assert(cs@.take(i + 1).last() == cs@[i as int]);
        let c = cs[i];
        if is_whitespace(c) {
            gap = true;
        } else {
            if gap && out.len() > 0 {
                out.push(' ');
            }
            out.push(c);
            gap = false;
        }
        i += 1;
    }
    assert(cs@.take(cs@.len() as int) == cs@);
    out
}

/// The search query for a track: `"{artist} {title}"` without `( )` and
/// `[ ]` groups (featured artists, "Live", ...), cut before a final ` - `
/// that only marks a remaster, remix or live version, with runs of
/// whitespace collapsed to single spaces and none at either end.
pub fn clean_query(artist: &str, title: &str) -> (q: String)
    ensures
        q@ == clean_query_spec(artist@, title@),
{
    let mut combined = chars_of(artist);
    combined.push(' ');
    push_str_chars(&mut combined, title);
    assert(combined@ =~= artist@ + seq![' '] + title@);
    let a = strip_delimited_exec(combined.as_slice(), '(', ')');
    let b = strip_delimited_exec(a.as_slice(), '[', ']');
    let c = drop_noise_exec(b);
    let d = collapse_ws_exec(c.as_slice());
    string_from(d.as_slice())
}

/// No character of `s` is `x`.
pub open spec fn avoids(s: Seq<char>, x: char) -> bool {
    forall|i: int| 0 <= i < s.len() ==> s[i] != x
}

/// Whitespace in `s` is only ever a single space between two other
/// characters.
pub open spec fn single_spaced(s: Seq<char>) -> bool {
    &&& s.len() > 0 ==> !is_ws(s[0]) && !is_ws(s.last())
    &&& forall|i: int|
        0 <= i < s.len() - 1 && is_ws(#[trigger] s[i]) ==> s[i] == ' ' && !is_ws(s[i + 1])
}

proof fn lemma_strip_avoids(s: Seq<char>, open: char, close: char, x: char)
    requires
        x == open || x == close || avoids(s, x),
    ensures
        avoids(strip_delimited(s, open, close), x),
    decreases s.len(),
{
    if s.len() > 0 {
        let d = s.drop_last();
        assert(x == open || x == close || avoids(d, x)) by {
            if avoids(s, x) {
                assert forall|i: int| 0 <= i < d.len() implies d[i] != x by {
                    assert(d[i] == s[i]);
                }
            }
        }
        lemma_strip_avoids(d, open, close, x);
        assert(avoids(s, x) ==> s.last() != x) by {
            if avoids(s, x) {
                assert(s[s.len() - 1] != x);
            }
        }
    }
}

proof fn lemma_collapse_shape(s: Seq<char>, x: char)
    requires
        x != ' ',
        avoids(s, x) || is_ws(x),
    ensures
        avoids(collapse_ws(s), x),
        single_spaced(collapse_ws(s)),
    decreases s.len(),
{
    if s.len() > 0 {
        let d = s.drop_last();
        assert(avoids(d, x) || is_ws(x)) by {
            if avoids(s, x) {
                assert forall|i: int| 0 <= i < d.len() implies d[i] != x by {
                    assert(d[i] == s[i]);
                }
            }
        }
        lemma_collapse_shape(d, x);
        let (o, gap) = collapse_state(d);
        let c = s.last();
        assert(avoids(s, x) ==> c != x) by {
            if avoids(s, x) {
                assert(s[s.len() - 1] != x);
            }
        }
        if !is_ws(c) {
            if gap && o.len() > 0 {
                let n = o.push(' ').push(c);
                assert(n[o.len() as int] == ' ');
                assert forall|i: int| 0 <= i < n.len() - 1 && is_ws(#[trigger] n[i]) implies n[i]
                    == ' ' && !is_ws(n[i + 1]) by {
                    if i < o.len() - 1 {
                        assert(n[i] == o[i] && n[i + 1] == o[i + 1]);
                    } else if i == o.len() - 1 {
                        assert(n[i] == o.last());
                    }
                }
            } else {
                let n = o.push(c);
                assert forall|i: int| 0 <= i < n.len() - 1 && is_ws(#[trigger] n[i]) implies n[i]
                    == ' ' && !is_ws(n[i + 1]) by {
                    if i < o.len() - 1 {
                        assert(n[i] == o[i] && n[i + 1] == o[i + 1]);
                    } else {
                        assert(n[i] == o.last());
                    }
                }
            }
        }
    }
}

/// `"{artist} {title}"` without its bracketed and parenthesized groups.
pub open spec fn unbracketed(artist: Seq<char>, title: Seq<char>) -> Seq<char> {
    strip_delimited(strip_delimited(artist + seq![' '] + title, '(', ')'), '[', ']')
}

/// When the text after the last ` - ` (once the groups are dropped) marks
/// a remaster, remix or live version, the query is the words before that
/// ` - ` only; otherwise nothing is cut.
pub proof fn lemma_noise_suffix_dropped(artist: Seq<char>, title: Seq<char>)
    ensures
        ({
            let b = unbracketed(artist, title);
            match rfind(b, " - "@) {
                Some(d) => if noise_suffix(b.skip(d + 3)) {
                    clean_query_spec(artist, title) == collapse_ws(b.take(d))
                } else {
                    clean_query_spec(artist, title) == collapse_ws(b)
                },
                None => clean_query_spec(artist, title) == collapse_ws(b),
            }
        }),
{
}

/// A cleaned query holds no parenthesis or square bracket, does not start
/// or end with whitespace, and separates its words by single spaces.
pub proof fn lemma_clean_query_shape(artist: Seq<char>, title: Seq<char>)
    ensures
        avoids(clean_query_spec(artist, title), '('),
        avoids(clean_query_spec(artist, title), ')'),
        avoids(clean_query_spec(artist, title), '['),
        avoids(clean_query_spec(artist, title), ']'),
        single_spaced(clean_query_spec(artist, title)),
{
    let combined = artist + seq![' '] + title;
    let a = strip_delimited(combined, '(', ')');
    let b = strip_delimited(a, '[', ']');
    let c = drop_noise(b);
    lemma_strip_avoids(combined, '(', ')', '(');
    lemma_strip_avoids(combined, '(', ')', ')');
    lemma_strip_avoids(a, '[', ']', '(');
    lemma_strip_avoids(a, '[', ']', ')');
    lemma_strip_avoids(a, '[', ']', '[');
    lemma_strip_avoids(a, '[', ']', ']');
    assert forall|x: char| avoids(b, x) implies avoids(c, x) by {
        lemma_last_occ_occurs(b, " - "@, b.len() as int);
        match rfind(b, " - "@) {
            Some(d) => if noise_suffix(b.skip(d + 3)) {
                assert forall|i: int| 0 <= i < c.len() implies c[i] != x by {
                    assert(c[i] == b[i]);
                }
            },
            None => {},
        }
    }
    lemma_collapse_shape(c, '(');
    lemma_collapse_shape(c, ')');
    lemma_collapse_shape(c, '[');
    lemma_collapse_shape(c, ']');
}

// ------------------------------------------------------------ tokens

/// Name for `char::is_alphanumeric`.
pub uninterp spec fn alphanumeric(c: char) -> bool;

/// Calls `char::is_alphanumeric` (the Unicode `Alphabetic` or `Numeric`
/// properties); which characters those are is left to the name.
#[verifier::external_body]
fn is_alphanumeric(c: char) -> (r: bool)
    ensures
        r == alphanumeric(c),
{
    c.is_alphanumeric()
}

/// Scanning `s` for its words: the words ended so far and the word being
/// read. Every non-alphanumeric character ends a word (possibly an empty one).
pub open spec fn word_state(s: Seq<char>) -> (Seq<Seq<char>>, Seq<char>)
    decreases s.len(),
{
    if s.len() == 0 {
        (Seq::empty(), Seq::empty())
    } else {
        let (done, cur) = word_state(s.drop_last());
        let c = s.last();
        if alphanumeric(c) {
            (done, cur.push(c))
        } else {
            (done.push(cur), Seq::empty())
        }
    }
}

/// The pieces of `s` between non-alphanumeric characters.
pub open spec fn words_of(s: Seq<char>) -> Seq<Seq<char>> {
    word_state(s).0.push(word_state(s).1)
}

/// `t` is a token of `s`: a piece of the ASCII-lowercased text between
/// non-alphanumeric characters, longer than one byte.
pub open spec fn is_token(s: Seq<char>, t: Seq<char>) -> bool {
    words_of(lower(s)).contains(t) && encode_utf8(t).len() > 1
}

/// Some entry of `v` reads `t`.
pub open spec fn has_token(v: Seq<String>, t: Seq<char>) -> bool {
    exists|i: int| 0 <= i < v.len() && #[trigger] v[i]@ == t
}

/// No two entries of `v` read the same.
pub open spec fn distinct_strings(v: Seq<String>) -> bool {
    forall|i: int, j: int| 0 <= i < j < v.len() ==> v[i]@ != v[j]@
}

fn contains_string(v: &Vec<String>, s: &str) -> (r: bool)
    ensures
        r == has_token(v@, s@),
{
    let mut i: usize = 0;
    while i < v.len()
        invariant
            i <= v@.len(),
            forall|k: int| 0 <= k < i ==> v@[k]@ != s@,
        decreases v@.len() - i,
    {
        if crate::http::str_eq(v[i].as_str(), s) {
            return true;
        }
        i += 1;
    }
    false
}

proof fn lemma_utf8_len_at_least(w: Seq<char>)
    ensures
        encode_utf8(w).len() >= w.len(),
    decreases w.len(),
{
    if w.len() > 0 {
        lemma_utf8_len_at_least(w.drop_first());
    }
}

/// A text encodes to more than one UTF-8 byte exactly when it has two or
/// more characters, or one outside ASCII.
proof fn lemma_utf8_longer_than_one(w: Seq<char>)
    ensures
        encode_utf8(w).len() > 1 <==> (w.len() >= 2 || (w.len() == 1 && (w[0] as u32) > 0x7F)),
{
    lemma_utf8_len_at_least(w);
    if w.len() == 1 {
        assert(w.drop_first().len() == 0);
        assert(encode_utf8(w.drop_first()).len() == 0);
    }
}

fn add_token(out: &mut Vec<String>, w: &Vec<char>)
    requires
        distinct_strings(old(out)@),
    ensures
        distinct_strings(final(out)@),
        forall|t: Seq<char>|
            has_token(final(out)@, t) <==> (has_token(old(out)@, t) || (t == w@ && encode_utf8(w@).len()
                > 1)),
{
    proof {
        lemma_utf8_longer_than_one(w@);
    }
    let long = w.len() >= 2 || (w.len() == 1 && (w[0] as u32) > 0x7F);
    let st = string_from(w.as_slice());
    if long && !contains_string(out, st.as_str()) {
        let ghost before = out@;
        out.push(st);
        assert forall|t: Seq<char>| has_token(out@, t) <==> (has_token(before, t) || t == w@) by {
            if has_token(before, t) {
                let k = choose|k: int| 0 <= k < before.len() && #[trigger] before[k]@ == t;
                assert(out@[k]@ == t);
            }
            if t == w@ {
                assert(out@[before.len() as int]@ == t);
            }
            if has_token(out@, t) {
                let k = choose|k: int| 0 <= k < out@.len() && #[trigger] out@[k]@ == t;
                if k < before.len() {
                    assert(before[k]@ == t);
                }
            }
        }
    }
}

/// The distinct tokens of `s`, in no particular order: the pieces of the
/// ASCII-lowercased text between non-alphanumeric characters that are
/// longer than one byte.
pub fn tokenize(s: &str) -> (tokens: Vec<String>)
    ensures
        distinct_strings(tokens@),
        forall|t: Seq<char>| has_token(tokens@, t) <==> is_token(s@, t),
{
    let raw = chars_of(s);
    let cs = lower_chars(raw.as_slice());
    let mut out: Vec<String> = Vec::new();
    let mut cur: Vec<char> = Vec::new();
    let mut i: usize = 0;
    while i < cs.len()
        invariant
            i <= cs@.len(),
            cs@ == lower(s@),
            distinct_strings(out@),
            cur@ == word_state(cs@.take(i as int)).1,
            forall|t: Seq<char>|
                has_token(out@, t) <==> (word_state(cs@.take(i as int)).0.contains(t) && encode_utf8(
                    t,
                ).len() > 1),
        decreases cs@.len() - i,
    {
        let ghost take = cs@.take(i as int);
        assert(cs@.take(i + 1).drop_last() == take);
        assert(cs@.take(i + 1).last() == cs@[i as int]);
        let c = cs[i];
        if is_alphanumeric(c) {
            cur.push(c);
        } else {
            let ghost done = word_state(take).0;
            add_token(&mut out, &cur);
            assert forall|t: Seq<char>| done.push(cur@).contains(t) <==> (done.contains(t) || t
                == cur@) by {
                if done.contains(t) {
                    let k = choose|k: int| 0 <= k < done.len() && done[k] == t;
                    assert(done.push(cur@)[k] == t);
                }
                if t == cur@ {
                    assert(done.push(cur@)[done.len() as int] == t);
                }
            }
            cur = Vec::new();
        }
        i += 1;
    }
    assert(cs@.take(cs@.len() as int) == cs@);
    let ghost done = word_state(cs@).0;
    let ghost last = cur@;
    add_token(&mut out, &cur);
    assert forall|t: Seq<char>| done.push(last).contains(t) <==> (done.contains(t) || t == last) by {
        if done.contains(t) {
            let k = choose|k: int| 0 <= k < done.len() && done[k] == t;
            assert(done.push(last)[k] == t);
        }
        if t == last {
            assert(done.push(last)[done.len() as int] == t);
        }
    }
    out
}

// ------------------------------------------------------------ scoring

/// The yes/no and counting facts a candidate is scored from; the weights
/// and the duration comparison are applied by the caller.
pub struct ScoreSignals {
    /// Wanted tokens that also occur in the candidate's title.
    pub overlap: usize,
    /// Number of wanted tokens.
    pub wanted: usize,
    /// The channel is an auto-generated "... - Topic" one, or the title
    /// says "Art Track".
    pub topic: bool,
    /// Channel and artist name contain one another (ignoring ASCII case).
    pub artist_match: bool,
    /// The title carries a red-flag word (live, cover, remix, ...) that the
    /// query does not.
    pub red_flag: bool,
}

/// Wanted tokens (by their text) that are tokens of `title`.
pub open spec fn overlap_count(wanted: Seq<String>, title: Seq<char>) -> nat
    decreases wanted.len(),
{
    if wanted.len() == 0 {
        0
    } else {
        overlap_count(wanted.drop_last(), title) + if is_token(title, wanted.last()@) {
            1nat
        } else {
            0
        }
    }
}

/// The title has `flag` and the query does not.
pub open spec fn flag_hit(title: Seq<char>, query: Seq<char>, flag: Seq<char>) -> bool {
    contains_str(title, flag) && !contains_str(query, flag)
}

/// Some red-flag word is in the lowercased title but not in the query.
pub open spec fn red_flag_spec(title: Seq<char>, query: Seq<char>) -> bool {
    let t = lower(title);
    ||| flag_hit(t, query, "live"@)
    ||| flag_hit(t, query, "cover"@)
    ||| flag_hit(t, query, "remix"@)
    ||| flag_hit(t, query, "sped up"@)
    ||| flag_hit(t, query, "nightcore"@)
    ||| flag_hit(t, query, "karaoke"@)
    ||| flag_hit(t, query, "instrumental"@)
    ||| flag_hit(t, query, "backing track"@)
    ||| flag_hit(t, query, "8d audio"@)
}

pub open spec fn topic_spec(title: Seq<char>, channel: Seq<char>) -> bool {
    ends_with(lower(channel), " - topic"@) || contains_str(lower(title), "art track"@)
}

pub open spec fn artist_match_spec(artist: Seq<char>, channel: Seq<char>) -> bool {
    let a = lower(artist);
    let c = lower(channel);
    a.len() > 0 && (contains_str(c, a) || contains_str(a, c))
}

/// Each of the nine red-flag words, when the lowercased title has it and
/// the query does not, flags the candidate; with none of them so placed,
/// it is not flagged.
pub proof fn lemma_red_flag_words(title: Seq<char>, query: Seq<char>)
    ensures
        contains_str(lower(title), "live"@) && !contains_str(query, "live"@) ==> red_flag_spec(title, query),
        contains_str(lower(title), "cover"@) && !contains_str(query, "cover"@) ==> red_flag_spec(title, query),
        contains_str(lower(title), "remix"@) && !contains_str(query, "remix"@) ==> red_flag_spec(title, query),
        contains_str(lower(title), "sped up"@) && !contains_str(query, "sped up"@) ==> red_flag_spec(
            title,
            query,
        ),
        contains_str(lower(title), "nightcore"@) && !contains_str(query, "nightcore"@) ==> red_flag_spec(
            title,
            query,
        ),
        contains_str(lower(title), "karaoke"@) && !contains_str(query, "karaoke"@) ==> red_flag_spec(
            title,
            query,
        ),
        contains_str(lower(title), "instrumental"@) && !contains_str(query, "instrumental"@)
            ==> red_flag_spec(title, query),
        contains_str(lower(title), "backing track"@) && !contains_str(query, "backing track"@)
            ==> red_flag_spec(title, query),
        contains_str(lower(title), "8d audio"@) && !contains_str(query, "8d audio"@) ==> red_flag_spec(
            title,
            query,
        ),
        red_flag_spec(title, query) ==> {
            ||| contains_str(lower(title), "live"@) && !contains_str(query, "live"@)
            ||| contains_str(lower(title), "cover"@) && !contains_str(query, "cover"@)
            ||| contains_str(lower(title), "remix"@) && !contains_str(query, "remix"@)
            ||| contains_str(lower(title), "sped up"@) && !contains_str(query, "sped up"@)
            ||| contains_str(lower(title), "nightcore"@) && !contains_str(query, "nightcore"@)
            ||| contains_str(lower(title), "karaoke"@) && !contains_str(query, "karaoke"@)
            ||| contains_str(lower(title), "instrumental"@) && !contains_str(query, "instrumental"@)
            ||| contains_str(lower(title), "backing track"@) && !contains_str(query, "backing track"@)
            ||| contains_str(lower(title), "8d audio"@) && !contains_str(query, "8d audio"@)
        },
{
}

fn flag_hit_exec(title: &[char], query: &[char], flag: &str) -> (r: bool)
    ensures
        r == flag_hit(title@, query@, flag@),
{
    let f = chars_of(flag);
    contains_chars(title, f.as_slice()) && !contains_chars(query, f.as_slice())
}

fn overlap_exec(wanted: &[String], title_tokens: &Vec<String>, Ghost(title): Ghost<Seq<char>>) -> (n: usize)
    requires
        forall|t: Seq<char>| has_token(title_tokens@, t) <==> is_token(title, t),
    ensures
        n == overlap_count(wanted@, title),
{
    let mut n: usize = 0;
    let mut i: usize = 0;
    assert(wanted@.take(0) =~= Seq::<String>::empty());
    while i < wanted.len()
        invariant
            i <= wanted@.len(),
            n <= i,
            n == overlap_count(wanted@.take(i as int), title),
            forall|t: Seq<char>| has_token(title_tokens@, t) <==> is_token(title, t),
        decreases wanted@.len() - i,
    {
        assert(wanted@.take(i + 1).drop_last() == wanted@.take(i as int));
        assert(wanted@.take(i + 1).last() == wanted@[i as int]);
        if contains_string(title_tokens, wanted[i].as_str()) {
            n = n + 1;
        }
        i += 1;
    }
    assert(wanted@.take(wanted@.len() as int) == wanted@);
    n
}

/// The scoring facts for a candidate with `title` on `channel`, against
/// the wanted `artist`, the wanted tokens (from `tokenize` of artist and
/// title) and the lowercased search query.
pub fn score_signals(artist: &str, wanted: &[String], query_lower: &str, title: &str, channel: &str) -> (s: ScoreSignals)
    ensures
        s.overlap == overlap_count(wanted@, lower(title@)),
        s.wanted == wanted@.len(),
        s.topic == topic_spec(title@, channel@),
        s.artist_match == artist_match_spec(artist@, channel@),
        s.red_flag == red_flag_spec(title@, query_lower@),
{
    let tc = chars_of(title);
    let title_lower = lower_chars(tc.as_slice());
    let cc = chars_of(channel);
    let channel_lower = lower_chars(cc.as_slice());
    let tl = string_from(title_lower.as_slice());
    let title_tokens = tokenize(tl.as_str());
    let overlap = overlap_exec(wanted, &title_tokens, Ghost(lower(title@)));
    let topic_suffix = chars_of(" - topic");
    let art_track = chars_of("art track");
    let topic = has_suffix(channel_lower.as_slice(), topic_suffix.as_slice()) || contains_chars(
        title_lower.as_slice(),
        art_track.as_slice(),
    );
    let ac = chars_of(artist);
    let artist_lower = lower_chars(ac.as_slice());
    let artist_match = artist_lower.len() > 0 && (contains_chars(
        channel_lower.as_slice(),
        artist_lower.as_slice(),
    ) || contains_chars(artist_lower.as_slice(), channel_lower.as_slice()));
    let q = chars_of(query_lower);
    let t = title_lower.as_slice();
    let qs = q.as_slice();
    let red_flag = flag_hit_exec(t, qs, "live") || flag_hit_exec(t, qs, "cover") || flag_hit_exec(
        t,
        qs,
        "remix",
    ) || flag_hit_exec(t, qs, "sped up") || flag_hit_exec(t, qs, "nightcore") || flag_hit_exec(
        t,
        qs,
        "karaoke",
    ) || flag_hit_exec(t, qs, "instrumental") || flag_hit_exec(t, qs, "backing track")
        || flag_hit_exec(t, qs, "8d audio");
    ScoreSignals { overlap, wanted: wanted.len(), topic, artist_match, red_flag }
}

} // verus!
