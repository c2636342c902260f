//! Subsonic authentication: either `t=md5(password+salt)&s=salt`, or
//! `p=password` (optionally hex-encoded behind an `enc:` prefix). There are
//! no user accounts; the configured token is the whole secret.
use vstd::prelude::*;
use vstd::string::*;
use vstd::utf8::{decode_utf8, encode_utf8, valid_utf8};
use crate::http::{chars_eq, lookup, str_eq, QueryParams};
use crate::numbers::{fmt_hex, hex_digit_char, hex_fixed, hex_pair, hex_pair_exec, hex_val};
use crate::strings::{
    chars_of, eq_ic, eq_ignore_ascii_case, has_prefix, push_chars, slice_chars, starts_with,
    string_from,
};

verus! {

/// Name for the MD5 digest of a byte sequence, as `md5::compute` returns it.
pub uninterp spec fn md5_digest(data: Seq<u8>) -> Seq<u8>;

/// Calls `md5::compute`. The crate's `Digest` is a 16-byte array, which the
/// contract states; the digest's value is left to the name.
#[verifier::external_body]
fn md5_compute(data: &[u8]) -> (d: Vec<u8>)
    ensures
        d@ == md5_digest(data@),
        d@.len() == 16,
{
    md5::compute(data).0.to_vec()
}

/// Calls `String::from_utf8`: `Ok` exactly when the bytes are valid UTF-8,
/// holding the text they encode.
#[verifier::external_body]
fn utf8_string(bytes: Vec<u8>) -> (r: Option<String>)
    ensures
        r is Some <==> valid_utf8(bytes@),
        r matches Some(s) ==> s@ == decode_utf8(bytes@),
{
    String::from_utf8(bytes).ok()
}

/// Lowercase hex, two digits per byte (`format!("{:x}", digest)`).
pub open spec fn hex_bytes(d: Seq<u8>) -> Seq<char>
    decreases d.len(),
{
    if d.len() == 0 {
        Seq::empty()
    } else {
        hex_bytes(d.drop_last()) + hex_fixed(d.last() as nat, 2)
    }
}

fn hex_of_bytes(d: &[u8]) -> (out: Vec<char>)
    ensures
        out@ == hex_bytes(d@),
{
    let mut out: Vec<char> = Vec::new();
    let mut i: usize = 0;
    while i < d.len()
        invariant
            i <= d@.len(),
            out@ == hex_bytes(d@.take(i as int)),
        decreases d@.len() - i,
    {
        let h = fmt_hex(d[i] as u64, 2);
        push_chars(&mut out, h.as_slice());
        assert(d@.take(i + 1).drop_last() == d@.take(i as int));
        i += 1;
    }
    assert(d@.take(d@.len() as int) == d@);
    out
}

/// The bytes of a string of hex digit pairs, stopping at the first pair
/// that is not one.
pub open spec fn hex_pairs(b: Seq<u8>) -> Option<Seq<u8>>
    decreases b.len(),
{
    if b.len() < 2 {
        Some(Seq::empty())
    } else {
        match hex_pair(b[0], b[1]) {
            None => None,
            Some(v) => match hex_pairs(b.skip(2)) {
                None => None,
                Some(rest) => Some(seq![v] + rest),
            },
        }
    }
}

/// `hex_decode`: even length, every pair a hex byte.
pub open spec fn hex_decode_spec(b: Seq<u8>) -> Option<Seq<u8>> {
    if b.len() % 2 != 0 {
        None
    } else {
        hex_pairs(b)
    }
}

/// Decodes a string of hex byte pairs.
fn hex_decode(hex: &str) -> (r: Option<Vec<u8>>)
    ensures
        r matches Some(v) ==> hex_decode_spec(hex.spec_bytes()) == Some(v@),
        r is None ==> hex_decode_spec(hex.spec_bytes()) is None,
{
    let b = hex.as_bytes();
    let n = b.len();
    if n % 2 != 0 {
        return None;
    }
    let mut out: Vec<u8> = Vec::new();
    let mut i: usize = 0;
    assert(b@.skip(0) == b@);
    while i < n
        invariant
            n == b@.len(),
            b@ == hex.spec_bytes(),
            n % 2 == 0,
            i <= n,
            i % 2 == 0,
            hex_pairs(b@) == match hex_pairs(b@.skip(i as int)) {
                None => None,
                Some(rest) => Some(out@ + rest),
            },
        decreases n - i,
    {
        let ghost rest = b@.skip(i as int);
        assert(n - i >= 2) by {
            assert(i < n && i % 2 == 0 && n % 2 == 0);
        }
        assert(rest.len() >= 2);
        assert(rest[0] == b@[i as int] && rest[1] == b@[i + 1]);
        assert(rest.skip(2) == b@.skip(i + 2));
        match hex_pair_exec(b[i], b[i + 1]) {
            None => {
                assert(hex_pairs(rest) is None);
                assert(hex_pairs(b@) is None);
                return None;
            },
            Some(v) => {
                let ghost before = out@;
                out.push(v);
                proof {
                    match hex_pairs(rest.skip(2)) {
                        None => {},
                        Some(r2) => {
                            assert(before + (seq![v] + r2) == out@ + r2);
                        },
                    }
                }
                i += 2;
            },
        }
    }
    assert(b@.skip(n as int).len() == 0);
    assert(out@ + Seq::<u8>::empty() == out@);
    Some(out)
}

pub open spec fn key_t() -> Seq<char> {
    seq!['t']
}

pub open spec fn key_s() -> Seq<char> {
    seq!['s']
}

pub open spec fn key_p() -> Seq<char> {
    seq!['p']
}

pub open spec fn enc_prefix() -> Seq<char> {
    seq!['e', 'n', 'c', ':']
}

/// Whether the query authenticates against `token`.
pub open spec fn check_auth_spec(token: Seq<char>, q: Seq<(Seq<char>, Seq<char>)>) -> bool {
    if token.len() == 0 {
        false
    } else if lookup(q, key_t()) is Some && lookup(q, key_s()) is Some {
        let t = lookup(q, key_t())->0;
        let s = lookup(q, key_s())->0;
        eq_ic(t, hex_bytes(md5_digest(encode_utf8(token + s))))
    } else {
        match lookup(q, key_p()) {
            None => false,
            Some(p) => if starts_with(p, enc_prefix()) {
                match hex_decode_spec(encode_utf8(p.skip(4))) {
                    Some(bytes) => valid_utf8(bytes) && decode_utf8(bytes) == token,
                    None => false,
                }
            } else {
                p == token
            },
        }
    }
}

/// Subsonic auth check. `u` is accepted and ignored; an empty token
/// authenticates nothing.
pub fn check_auth(token: &str, q: &QueryParams) -> (ok: bool)
    ensures
        ok == check_auth_spec(token@, q@),
{
    if token.is_empty() {
        return false;
    }
    proof {
        reveal_strlit("t");
        reveal_strlit("s");
        reveal_strlit("p");
    }
    assert("t"@ =~= key_t() && "s"@ =~= key_s() && "p"@ =~= key_p());
    let t_opt = q.get("t");
    let s_opt = q.get("s");
    if let (Some(t), Some(s)) = (t_opt, s_opt) {
        let mut joined = chars_of(token);
        let sc = chars_of(s.as_str());
        push_chars(&mut joined, sc.as_slice());
        let joined_s = string_from(joined.as_slice());
        let digest = md5_compute(joined_s.as_str().as_bytes());
        let expected = hex_of_bytes(digest.as_slice());
        let tc = chars_of(t.as_str());
        return eq_ignore_ascii_case(tc.as_slice(), expected.as_slice());
    }
    match q.get("p") {
        Some(p) => {
            let pc = chars_of(p.as_str());
            let enc = chars_of("enc:");
            proof {
                reveal_strlit("enc:");
            }
            assert(enc@ =~= enc_prefix());
            if has_prefix(pc.as_slice(), enc.as_slice()) {
                let rest = slice_chars(pc.as_slice(), 4, pc.len());
                let hex = string_from(rest.as_slice());
                assert(hex@ == p@.skip(4));
                match hex_decode(hex.as_str()) {
                    Some(bytes) => match utf8_string(bytes) {
                        Some(decoded) => str_eq(decoded.as_str(), token),
                        None => false,
                    },
                    None => false,
                }
            } else {
                let tk = chars_of(token);
                chars_eq(pc.as_slice(), tk.as_slice())
            }
        },
        None => false,
    }
}

/// An unset token authenticates nothing, whatever the request carries.
pub proof fn lemma_empty_token_authenticates_nothing(q: Seq<(Seq<char>, Seq<char>)>)
    ensures
        !check_auth_spec(Seq::empty(), q),
{
}

/// The salted scheme: `t` = hex MD5 of token and salt (in either letter
/// case) with that salt in `s` authenticates.
pub proof fn lemma_salted_token_authenticates(
    token: Seq<char>,
    salt: Seq<char>,
    t: Seq<char>,
    q: Seq<(Seq<char>, Seq<char>)>,
)
    requires
        token.len() > 0,
        lookup(q, key_t()) == Some(t),
        lookup(q, key_s()) == Some(salt),
        eq_ic(t, hex_bytes(md5_digest(encode_utf8(token + salt)))),
    ensures
        check_auth_spec(token, q),
{
}

/// The plain scheme: `p` equal to the token authenticates when no salted
/// pair is given (and the token itself does not start with `enc:`).
pub proof fn lemma_plain_password_authenticates(token: Seq<char>, q: Seq<(Seq<char>, Seq<char>)>)
    requires
        token.len() > 0,
        !starts_with(token, enc_prefix()),
        lookup(q, key_t()) is None || lookup(q, key_s()) is None,
        lookup(q, key_p()) == Some(token),
    ensures
        check_auth_spec(token, q),
{
}

/// A request with neither the salted pair nor a password is refused.
pub proof fn lemma_no_credentials_refused(token: Seq<char>, q: Seq<(Seq<char>, Seq<char>)>)
    requires
        lookup(q, key_t()) is None || lookup(q, key_s()) is None,
        lookup(q, key_p()) is None,
    ensures
        !check_auth_spec(token, q),
{
}

/// The digit character of a nibble read back as a hex digit byte.
proof fn lemma_hex_digit_reads_back(x: nat)
    requires
        x < 16,
    ensures
        (hex_digit_char(x) as u32) < 128,
        hex_val(hex_digit_char(x) as u8) == Some(x as u8),
        hex_digit_char(x) as u8 != 43,
{
    if x < 10 {
        assert(hex_digit_char(x) as u32 == (x + 48) as u32);
    } else {
        assert(hex_digit_char(x) as u32 == (x + 87) as u32);
    }
}

/// `hex_bytes(d)` is two digit characters per byte, high nibble first.
proof fn lemma_hex_bytes_layout(d: Seq<u8>)
    ensures
        hex_bytes(d).len() == 2 * d.len(),
        forall|k: int|
            0 <= k < d.len() ==> hex_bytes(d)[2 * k] == hex_digit_char((d[k] / 16) as nat)
                && hex_bytes(d)[2 * k + 1] == hex_digit_char((d[k] % 16) as nat),
    decreases d.len(),
{
    if d.len() > 0 {
        let p = d.drop_last();
        lemma_hex_bytes_layout(p);
        let n = d.last() as nat;
        let f = hex_fixed(n, 2);
        assert(hex_fixed(n / 16 / 16, 0) =~= Seq::<char>::empty());
        assert(hex_fixed(n / 16, 1) =~= seq![hex_digit_char((n / 16) % 16)]);
        assert(f =~= seq![hex_digit_char((n / 16) % 16), hex_digit_char(n % 16)]);
        assert(f[0] == hex_digit_char((n / 16) % 16));
        assert(f[1] == hex_digit_char(n % 16));
        assert((n / 16) % 16 == n / 16);
        assert forall|k: int| 0 <= k < d.len() implies hex_bytes(d)[2 * k] == hex_digit_char(
            (d[k] / 16) as nat,
        ) && hex_bytes(d)[2 * k + 1] == hex_digit_char((d[k] % 16) as nat) by {
            if k < p.len() {
                assert(d[k] == p[k]);
            }
        }
    }
}

/// Byte pairs that are the digit codes of the bytes of `d` decode to `d`.
proof fn lemma_hex_pairs_of_digits(e: Seq<u8>, d: Seq<u8>)
    requires
        e.len() == 2 * d.len(),
        forall|k: int|
            0 <= k < d.len() ==> e[2 * k] == hex_digit_char((d[k] / 16) as nat) as u8 && e[2 * k
                + 1] == hex_digit_char((d[k] % 16) as nat) as u8,
    ensures
        hex_pairs(e) == Some(d),
    decreases d.len(),
{
    if d.len() == 0 {
        assert(d =~= Seq::<u8>::empty());
    } else {
        let h = (d[0] / 16) as nat;
        let l = (d[0] % 16) as nat;
        lemma_hex_digit_reads_back(h);
        lemma_hex_digit_reads_back(l);
        assert(e[0] == hex_digit_char(h) as u8);
        assert(e[1] == hex_digit_char(l) as u8);
        assert(hex_pair(e[0], e[1]) == Some(d[0]));
        let e2 = e.skip(2);
        let d2 = d.skip(1);
        assert forall|k: int| 0 <= k < d2.len() implies e2[2 * k] == hex_digit_char(
            (d2[k] / 16) as nat,
        ) as u8 && e2[2 * k + 1] == hex_digit_char((d2[k] % 16) as nat) as u8 by {
            assert(d2[k] == d[k + 1]);
            assert(e2[2 * k] == e[2 * (k + 1)]);
            assert(e2[2 * k + 1] == e[2 * (k + 1) + 1]);
        }
        lemma_hex_pairs_of_digits(e2, d2);
        assert(seq![d[0]] + d2 =~= d);
    }
}

/// The `enc:` scheme: `p` = `enc:` and the token's UTF-8 bytes in
/// lowercase hex authenticates when no salted pair is given.
pub proof fn lemma_hex_password_authenticates(token: Seq<char>, q: Seq<(Seq<char>, Seq<char>)>)
    requires
        token.len() > 0,
        lookup(q, key_t()) is None || lookup(q, key_s()) is None,
        lookup(q, key_p()) == Some(enc_prefix() + hex_bytes(encode_utf8(token))),
    ensures
        check_auth_spec(token, q),
{
    let d = encode_utf8(token);
    let h = hex_bytes(d);
    let p = enc_prefix() + h;
    assert(starts_with(p, enc_prefix())) by {
        assert(p.take(4) =~= enc_prefix());
    }
    assert(p.skip(4) =~= h);
    lemma_hex_bytes_layout(d);
    assert(vstd::utf8::is_ascii_chars(h)) by {
        assert forall|i: int| 0 <= i < h.len() implies '\0' <= #[trigger] h[i] <= '\u{7f}' by {
            let k = i / 2;
            if i % 2 == 0 {
                assert(i == 2 * k);
                lemma_hex_digit_reads_back((d[k] / 16) as nat);
            } else {
                assert(i == 2 * k + 1);
                lemma_hex_digit_reads_back((d[k] % 16) as nat);
            }
        }
    }
    vstd::utf8::is_ascii_chars_encode_utf8(h);
    let e = encode_utf8(h);
    assert forall|k: int| 0 <= k < d.len() implies e[2 * k] == hex_digit_char(
        (d[k] / 16) as nat,
    ) as u8 && e[2 * k + 1] == hex_digit_char((d[k] % 16) as nat) as u8 by {
        assert(h[2 * k] as u8 == e[2 * k]);
        assert(h[2 * k + 1] as u8 == e[2 * k + 1]);
    }
    lemma_hex_pairs_of_digits(e, d);
    assert(e.len() % 2 == 0);
    vstd::utf8::encode_utf8_valid_utf8(token);
    vstd::utf8::encode_utf8_decode_utf8(token);
}

} // verus!
