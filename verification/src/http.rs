//! Request-line handling for the Subsonic server: URL percent-decoding,
//! query-string parameters, the method name, and `Range:` headers.
use vstd::prelude::*;
use vstd::string::*;
use vstd::utf8::{
    decode_utf8, encode_scalar, encode_utf8, has_width_1_encoding, last_continuation_byte,
    leading_byte_width_1, leading_byte_width_2, leading_byte_width_3, leading_byte_width_4,
    second_last_continuation_byte, third_last_continuation_byte, valid_utf8,
};
use crate::numbers::{dec, fmt_u64, hex_pair, hex_pair_exec, parse_u64, parse_u64_chars};
use crate::strings::{
    after_last, after_last_char, chars_of, ends_with, find, find_char, has_prefix, has_suffix,
    lemma_after_last, lemma_find, push_chars, slice_chars, split, split_chars, starts_with,
    string_from, trim, trim_chars,
};

verus! {

/// Name for what `String::from_utf8_lossy` makes of a byte sequence.
pub uninterp spec fn utf8_lossy(bytes: Seq<u8>) -> Seq<char>;

/// Calls `String::from_utf8_lossy` (then `Cow::into_owned`). Its documentation
/// promises that valid UTF-8 comes back unchanged, which the contract states;
/// how an invalid sequence is replaced by U+FFFD is left to the name.
#[verifier::external_body]
fn lossy_string(bytes: &[u8]) -> (s: String)
    ensures
        s@ == utf8_lossy(bytes@),
        valid_utf8(bytes@) ==> s@ == decode_utf8(bytes@),
{
    String::from_utf8_lossy(bytes).into_owned()
}

/// The bytes `percent_decode` produces: `%XX` becomes the byte `0xXX`
/// (with `u8::from_str_radix` rules for the two characters), `+` becomes
/// a space, anything else is kept.
pub open spec fn pd(b: Seq<u8>) -> Seq<u8>
    decreases b.len(),
{
    if b.len() == 0 {
        Seq::empty()
    } else if b[0] == 37 && b.len() >= 3 && hex_pair(b[1], b[2]) is Some {
        seq![hex_pair(b[1], b[2])->0] + pd(b.skip(3))
    } else if b[0] == 43 {
        seq![32u8] + pd(b.skip(1))
    } else {
        seq![b[0]] + pd(b.skip(1))
    }
}

/// The decoded text of the percent-encoded string `s`.
pub open spec fn decode_spec(s: Seq<char>) -> Seq<char> {
    utf8_lossy(pd(encode_utf8(s)))
}

/// `s` has no `%` and no `+`: nothing in it is an escape.
pub open spec fn plain_text(s: Seq<char>) -> bool {
    forall|i: int| 0 <= i < s.len() ==> s[i] != '%' && s[i] != '+'
}

/// No byte of `b` is `%` or `+`.
pub open spec fn plain_bytes(b: Seq<u8>) -> bool {
    forall|k: int| 0 <= k < b.len() ==> b[k] != 37 && b[k] != 43
}

proof fn lemma_pd_plain(b: Seq<u8>)
    requires
        plain_bytes(b),
    ensures
        pd(b) == b,
    decreases b.len(),
{
    if b.len() > 0 {
        lemma_pd_plain(b.skip(1));
        assert(seq![b[0]] + b.skip(1) =~= b);
    }
}

/// A character other than `%` and `+` encodes to bytes that are neither:
/// an ASCII one to itself, any other one to bytes with the high bit set.
proof fn lemma_scalar_plain(c: char)
    requires
        c != '%' && c != '+',
    ensures
        plain_bytes(encode_scalar(c as u32)),
{
    let v = c as u32;
    vstd::utf8::char_is_scalar(c);
    if has_width_1_encoding(v) {
        assert(leading_byte_width_1(v) as u32 == v) by (bit_vector)
            requires
                v <= 0x7F,
        ;
        assert(v != 37 && v != 43);
    } else {
        assert(last_continuation_byte(v) >= 0x80) by (bit_vector);
        assert(second_last_continuation_byte(v) >= 0x80) by (bit_vector);
        assert(third_last_continuation_byte(v) >= 0x80) by (bit_vector);
        assert(leading_byte_width_2(v) >= 0x80) by (bit_vector);
        assert(leading_byte_width_3(v) >= 0x80) by (bit_vector);
        assert(leading_byte_width_4(v) >= 0x80) by (bit_vector);
    }
}

proof fn lemma_utf8_plain(s: Seq<char>)
    requires
        plain_text(s),
    ensures
        plain_bytes(encode_utf8(s)),
    decreases s.len(),
{
    if s.len() > 0 {
        lemma_scalar_plain(s[0]);
        lemma_utf8_plain(s.drop_first());
        let a = encode_scalar(s[0] as u32);
        let r = encode_utf8(s.drop_first());
        assert(encode_utf8(s) == a + r);
        assert forall|k: int| 0 <= k < (a + r).len() implies (a + r)[k] != 37 && (a + r)[k] != 43 by {
            if k < a.len() {
                assert((a + r)[k] == a[k]);
            } else {
                assert((a + r)[k] == r[k - a.len()]);
            }
        }
    }
}

/// Text without escapes can always be decoded, and decodes to itself.
pub proof fn lemma_plain_text_decodable(s: Seq<char>)
    requires
        plain_text(s),
    ensures
        pd(encode_utf8(s)) == encode_utf8(s),
        valid_utf8(pd(encode_utf8(s))),
        decode_utf8(pd(encode_utf8(s))) == s,
{
    lemma_utf8_plain(s);
    lemma_pd_plain(encode_utf8(s));
    vstd::utf8::encode_utf8_valid_utf8(s);
    vstd::utf8::encode_utf8_decode_utf8(s);
}

/// Decodes `%XX` escapes and `+` (as a space); a `%` not followed by two
/// hex digits is kept as it is. Bytes that do not form UTF-8 are replaced.
pub fn percent_decode(s: &str) -> (out: String)
    ensures
        out@ == decode_spec(s@),
        valid_utf8(pd(s.spec_bytes())) ==> out@ == decode_utf8(pd(s.spec_bytes())),
        plain_text(s@) ==> out@ == s@,
{
    proof {
        if plain_text(s@) {
            lemma_plain_text_decodable(s@);
        }
    }
    let bytes = s.as_bytes();
    let n = bytes.len();
    let mut out: Vec<u8> = Vec::new();
    let mut i: usize = 0;
    assert(bytes@.skip(0) == bytes@);
    while i < n
        invariant
            n == bytes@.len(),
            bytes@ == s.spec_bytes(),
            i <= n,
            out@ + pd(bytes@.skip(i as int)) == pd(bytes@),
        decreases n - i,
    {
        let ghost rest = bytes@.skip(i as int);
        let ghost before = out@;
        assert(rest[0] == bytes@[i as int]);
        if bytes[i] == 37 && n - i >= 3 {
            assert(rest[1] == bytes@[i + 1] && rest[2] == bytes@[i + 2]);
            match hex_pair_exec(bytes[i + 1], bytes[i + 2]) {
                Some(v) => {
                    out.push(v);
                    assert(rest.skip(3) == bytes@.skip(i + 3));
                    assert(before + pd(rest) == before.push(v) + pd(rest.skip(3)));
                    i += 3;
                },
                None => {
                    out.push(37);
                    assert(rest.skip(1) == bytes@.skip(i + 1));
                    assert(before + pd(rest) == before.push(37) + pd(rest.skip(1)));
                    i += 1;
                },
            }
        } else if bytes[i] == 43 {
            out.push(32);
            assert(rest.skip(1) == bytes@.skip(i + 1));
            assert(before + pd(rest) == before.push(32) + pd(rest.skip(1)));
            i += 1;
        } else {
            let b = bytes[i];
            out.push(b);
            assert(rest.skip(1) == bytes@.skip(i + 1));
            assert(before + pd(rest) == before.push(b) + pd(rest.skip(1)));
            i += 1;
        }
    }
    assert(pd(bytes@.skip(n as int)) == Seq::<u8>::empty());
    assert(out@ == pd(bytes@));
    lossy_string(out.as_slice())
}

/// `pair.split_once('=').unwrap_or((pair, ""))`.
pub open spec fn split_pair(p: Seq<char>) -> (Seq<char>, Seq<char>) {
    let e = find(p, '=');
    if e < p.len() {
        (p.take(e as int), p.skip(e + 1 as int))
    } else {
        (p, Seq::empty())
    }
}

/// The non-empty `&`-separated pieces, each split at its first `=`.
pub open spec fn pairs_of(pieces: Seq<Seq<char>>) -> Seq<(Seq<char>, Seq<char>)>
    decreases pieces.len(),
{
    if pieces.len() == 0 {
        Seq::empty()
    } else if pieces.last().len() == 0 {
        pairs_of(pieces.drop_last())
    } else {
        pairs_of(pieces.drop_last()).push(split_pair(pieces.last()))
    }
}

/// The raw (still encoded) key/value pairs after the first `?` of `url`.
pub open spec fn raw_pairs(url: Seq<char>) -> Seq<(Seq<char>, Seq<char>)> {
    let q = find(url, '?');
    if q < url.len() {
        pairs_of(split(url.skip(q + 1 as int), '&'))
    } else {
        Seq::empty()
    }
}

/// The decoded key/value pairs of `url`, in order of appearance.
pub open spec fn parse_query_spec(url: Seq<char>) -> Seq<(Seq<char>, Seq<char>)> {
    raw_pairs(url).map_values(|p: (Seq<char>, Seq<char>)| (decode_spec(p.0), decode_spec(p.1)))
}

/// The value of the last pair whose key is `k` (a later pair overrides an earlier one).
pub open spec fn lookup(pairs: Seq<(Seq<char>, Seq<char>)>, k: Seq<char>) -> Option<Seq<char>>
    decreases pairs.len(),
{
    if pairs.len() == 0 {
        None
    } else if pairs.last().0 == k {
        Some(pairs.last().1)
    } else {
        lookup(pairs.drop_last(), k)
    }
}

/// Decoded query-string parameters, in the order they were given.
pub struct QueryParams {
    pairs: Vec<(String, String)>,
}

impl View for QueryParams {
    type V = Seq<(Seq<char>, Seq<char>)>;

    closed spec fn view(&self) -> Seq<(Seq<char>, Seq<char>)> {
        self.pairs@.map_values(|p: (String, String)| (p.0@, p.1@))
    }
}

impl QueryParams {
    /// Parameters given directly as (key, value) pairs.
    pub fn from_pairs(pairs: Vec<(String, String)>) -> (q: QueryParams)
        ensures
            q@ == pairs@.map_values(|p: (String, String)| (p.0@, p.1@)),
    {
        QueryParams { pairs }
    }

    /// The value given for `key`; when a key repeats, the last one counts.
    pub fn get(&self, key: &str) -> (r: Option<&String>)
        ensures
            r matches Some(v) ==> lookup(self@, key@) == Some(v@),
            r is None ==> lookup(self@, key@) is None,
    {
        let mut i = self.pairs.len();
        assert(self@.take(i as int) == self@);
        while i > 0
            invariant
                i <= self.pairs@.len(),
                lookup(self@, key@) == lookup(self@.take(i as int), key@),
            decreases i,
        {
            let ghost t = self@.take(i as int);
            assert(t.drop_last() == self@.take(i - 1));
            assert(t.last() == (self.pairs@[i - 1].0@, self.pairs@[i - 1].1@));
            if str_eq(self.pairs[i - 1].0.as_str(), key) {
                return Some(&self.pairs[i - 1].1);
            }
            i -= 1;
        }
        None
    }

    /// True when no parameter was given.
    pub fn is_empty(&self) -> (b: bool)
        ensures
            b == (self@.len() == 0),
    {
        self.pairs.len() == 0
    }

    /// Number of (key, value) pairs given, repeats included.
    pub fn len(&self) -> (n: usize)
        ensures
            n == self@.len(),
    {
        self.pairs.len()
    }
}

/// String equality on characters.
pub fn str_eq(a: &str, b: &str) -> (r: bool)
    ensures
        r == (a@ == b@),
{
    let x = chars_of(a);
    let y = chars_of(b);
    chars_eq(x.as_slice(), y.as_slice())
}

pub fn chars_eq(a: &[char], b: &[char]) -> (r: bool)
    ensures
        r == (a@ == b@),
{
    if a.len() != b.len() {
        return false;
    }
    let mut i: usize = 0;
    while i < a.len()
        invariant
            a@.len() == b@.len(),
            i <= a@.len(),
            forall|j: int| 0 <= j < i ==> a@[j] == b@[j],
        decreases a@.len() - i,
    {
        if a[i] != b[i] {
            return false;
        }
        i += 1;
    }
    assert(a@ =~= b@);
    true
}

fn decode_chars(cs: &[char]) -> (out: String)
    ensures
        out@ == decode_spec(cs@),
{
    let s = string_from(cs);
    percent_decode(s.as_str())
}

/// Splits the query string of `url` (after the first `?`) into decoded
/// key/value pairs; a piece without `=` is a key with an empty value and
/// empty pieces are skipped.
pub fn parse_query(url: &str) -> (q: QueryParams)
    ensures
        q@ == parse_query_spec(url@),
{
    let cs = chars_of(url);
    let qpos = find_char(cs.as_slice(), '?');
    proof {
        lemma_find(cs@, '?');
    }
    let mut pairs: Vec<(String, String)> = Vec::new();
    if qpos == cs.len() {
        let q = QueryParams { pairs };
        assert(q@ =~= parse_query_spec(url@));
        return q;
    }
    let query = slice_chars(cs.as_slice(), qpos + 1, cs.len());
    let pieces = split_chars(query.as_slice(), '&');
    let ghost pv = pieces@.map_values(|v: Vec<char>| v@);
    assert(pv == split(url@.skip(qpos + 1), '&'));
    let mut i: usize = 0;
    while i < pieces.len()
        invariant
            i <= pieces@.len(),
            pv == pieces@.map_values(|v: Vec<char>| v@),
            raw_pairs(url@) == pairs_of(pv),
            pairs@.map_values(|p: (String, String)| (p.0@, p.1@)) == pairs_of(pv.take(
                i as int,
            )).map_values(|p: (Seq<char>, Seq<char>)| (decode_spec(p.0), decode_spec(p.1))),
        decreases pieces@.len() - i,
    {
        let ghost before = pairs@.map_values(|p: (String, String)| (p.0@, p.1@));
        let piece = &pieces[i];
        assert(pv.take(i + 1).drop_last() == pv.take(i as int));
        assert(pv.take(i + 1).last() == piece@);
        if piece.len() > 0 {
            let e = find_char(piece.as_slice(), '=');
            proof {
                lemma_find(piece@, '=');
            }
            let (k, v) = if e < piece.len() {
                (slice_chars(piece.as_slice(), 0, e), slice_chars(piece.as_slice(), e + 1, piece.len()))
            } else {
                (slice_chars(piece.as_slice(), 0, piece.len()), Vec::new())
            };
            assert(k@ == split_pair(piece@).0 && v@ == split_pair(piece@).1) by {
                if e < piece.len() {
                } else {
                    assert(piece@.subrange(0, piece@.len() as int) == piece@);
                }
            }
            proof {
                lemma_pairs_of_prefix(pv, i as int);
                let idx = pairs_of(pv.take(i as int)).len() as int;
                assert(raw_pairs(url@)[idx] == split_pair(piece@));
            }
            let kd = decode_chars(k.as_slice());
            let vd = decode_chars(v.as_slice());
            pairs.push((kd, vd));
            assert(pairs@.map_values(|p: (String, String)| (p.0@, p.1@)) =~= before.push(
                (decode_spec(split_pair(piece@).0), decode_spec(split_pair(piece@).1)),
            ));
            assert(pairs_of(pv.take(i + 1)) == pairs_of(pv.take(i as int)).push(split_pair(piece@)));
            assert(pairs_of(pv.take(i + 1)).map_values(
                |p: (Seq<char>, Seq<char>)| (decode_spec(p.0), decode_spec(p.1)),
            ) =~= pairs_of(pv.take(i as int)).map_values(
                |p: (Seq<char>, Seq<char>)| (decode_spec(p.0), decode_spec(p.1)),
            ).push((decode_spec(split_pair(piece@).0), decode_spec(split_pair(piece@).1))));
        } else {
            assert(pairs_of(pv.take(i + 1)) == pairs_of(pv.take(i as int)));
        }
        i += 1;
    }
    assert(pv.take(pieces@.len() as int) == pv);
    QueryParams { pairs }
}

/// `pairs_of` of a prefix is a prefix of `pairs_of`; a non-empty piece at
/// `i` lands right after the pairs of the pieces before it.
proof fn lemma_pairs_of_prefix(pv: Seq<Seq<char>>, i: int)
    requires
        0 <= i < pv.len(),
        pv[i].len() > 0,
    ensures
        pairs_of(pv.take(i)).len() < pairs_of(pv).len(),
        pairs_of(pv)[pairs_of(pv.take(i)).len() as int] == split_pair(pv[i]),
    decreases pv.len(),
{
    if i == pv.len() - 1 {
        assert(pv.drop_last() == pv.take(i));
    } else {
        lemma_pairs_of_prefix(pv.drop_last(), i);
        assert(pv.drop_last().take(i) == pv.take(i));
        assert(pv.drop_last()[i] == pv[i]);
    }
}

/// The method name of a request URL: the last path segment before any
/// `?`, without a trailing `.view`.
pub open spec fn method_spec(url: Seq<char>) -> Seq<char> {
    let path = url.take(find(url, '?') as int);
    let last = path.skip(after_last(path, '/') as int);
    if ends_with(last, ".view"@) {
        last.take(last.len() - 5)
    } else {
        last
    }
}

/// `/rest/getMusicDirectory.view?id=1` -> `getMusicDirectory`.
pub fn method_of(url: &str) -> (m: &str)
    ensures
        m@ == method_spec(url@),
{
    let cs = chars_of(url);
    let q = find_char(cs.as_slice(), '?');
    proof {
        lemma_find(url@, '?');
    }
    let path = slice_chars(cs.as_slice(), 0, q);
    let a = after_last_char(path.as_slice(), '/');
    proof {
        lemma_after_last(path@, '/');
    }
    let last = slice_chars(path.as_slice(), a, path.len());
    assert(path@ == url@.take(q as int));
    assert(last@ == path@.skip(a as int));
    let view = chars_of(".view");
    proof {
        reveal_strlit(".view");
    }
    let end = if has_suffix(last.as_slice(), view.as_slice()) {
        q - 5
    } else {
        q
    };
    let m = url.substring_char(a, end);
    assert(m@ =~= method_spec(url@));
    m
}

/// A single-range `Range:` header value resolved against a file of `len`
/// bytes: `bytes=A-B`, `bytes=A-` or `bytes=-N`, clamped to the file;
/// `None` for anything else, for several ranges, and for a range that does
/// not overlap the file.
pub open spec fn parse_range_spec(value: Seq<char>, len: u64) -> Option<(u64, u64)> {
    let t = trim(value);
    let prefix = seq!['b', 'y', 't', 'e', 's', '='];
    if len == 0 || !starts_with(t, prefix) {
        None
    } else {
        let spec = t.skip(6);
        if find(spec, ',') < spec.len() {
            None
        } else {
            let d = find(spec, '-');
            if d >= spec.len() {
                None
            } else {
                let from = spec.take(d as int);
                let to = spec.skip(d + 1 as int);
                if from.len() == 0 {
                    match parse_u64(trim(to)) {
                        None => None,
                        Some(n) => if n == 0 {
                            None
                        } else {
                            let start = if n >= len {
                                0u64
                            } else {
                                (len - n) as u64
                            };
                            Some((start, (len - 1) as u64))
                        },
                    }
                } else {
                    match parse_u64(trim(from)) {
                        None => None,
                        Some(start) => {
                            let tt = trim(to);
                            let end_opt = if tt.len() == 0 {
                                Some((len - 1) as u64)
                            } else {
                                parse_u64(tt)
                            };
                            match end_opt {
                                None => None,
                                Some(end) => {
                                    let e = if end < len - 1 {
                                        end
                                    } else {
                                        (len - 1) as u64
                                    };
                                    if start > e || start >= len {
                                        None
                                    } else {
                                        Some((start, e))
                                    }
                                },
                            }
                        },
                    }
                }
            }
        }
    }
}

/// Parses a single-range `Range:` header value against a known file length.
pub fn parse_range(value: &str, len: u64) -> (r: Option<(u64, u64)>)
    ensures
        r == parse_range_spec(value@, len),
        r matches Some((s, e)) ==> s <= e < len,
{
    if len == 0 {
        return None;
    }
    let raw = chars_of(value);
    let t = trim_chars(raw.as_slice());
    let prefix = chars_of("bytes=");
    proof {
        reveal_strlit("bytes=");
    }
    assert(prefix@ =~= seq!['b', 'y', 't', 'e', 's', '=']);
    if !has_prefix(t.as_slice(), prefix.as_slice()) {
        return None;
    }
    let spec = slice_chars(t.as_slice(), 6, t.len());
    assert(spec@ == t@.skip(6));
    if find_char(spec.as_slice(), ',') < spec.len() {
        return None;
    }
    let d = find_char(spec.as_slice(), '-');
    if d >= spec.len() {
        return None;
    }
    let from = slice_chars(spec.as_slice(), 0, d);
    let to = slice_chars(spec.as_slice(), d + 1, spec.len());
    assert(from@ == spec@.take(d as int));
    assert(to@ == spec@.skip(d + 1));
    let to_t = trim_chars(to.as_slice());
    if from.len() == 0 {
        match parse_u64_chars(to_t.as_slice()) {
            None => None,
            Some(n) => {
                if n == 0 {
                    None
                } else {
                    let start = len.saturating_sub(n);
                    Some((start, len - 1))
                }
            },
        }
    } else {
        let from_t = trim_chars(from.as_slice());
        match parse_u64_chars(from_t.as_slice()) {
            None => None,
            Some(start) => {
                let end_opt = if to_t.len() == 0 {
                    Some(len - 1)
                } else {
                    parse_u64_chars(to_t.as_slice())
                };
                match end_opt {
                    None => None,
                    Some(end) => {
                        let e = if end < len - 1 {
                            end
                        } else {
                            len - 1
                        };
                        if start > e || start >= len {
                            None
                        } else {
                            Some((start, e))
                        }
                    },
                }
            },
        }
    }
}

/// The `Content-Range` value for a satisfied range: `bytes S-E/LEN`.
pub open spec fn content_range_spec(start: u64, end: u64, len: u64) -> Seq<char> {
    "bytes "@ + dec(start as nat) + seq!['-'] + dec(end as nat) + seq!['/'] + dec(len as nat)
}

pub fn content_range(start: u64, end: u64, len: u64) -> (s: String)
    ensures
        s@ == content_range_spec(start, end, len),
{
    let mut v: Vec<char> = Vec::new();
    crate::strings::push_str_chars(&mut v, "bytes ");
    let a = fmt_u64(start);
    push_chars(&mut v, a.as_slice());
    v.push('-');
    let b = fmt_u64(end);
    push_chars(&mut v, b.as_slice());
    v.push('/');
    let c = fmt_u64(len);
    push_chars(&mut v, c.as_slice());
    assert(v@ =~= content_range_spec(start, end, len));
    string_from(v.as_slice())
}

} // verus!
