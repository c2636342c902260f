//! Stable, opaque identifiers for the Subsonic API: artists and albums are
//! named by a hash of their tag strings, tracks and playlists by their row
//! id behind a two-letter prefix.
use vstd::prelude::*;
use vstd::string::*;
use vstd::utf8::encode_utf8;
use crate::numbers::{dec_int, fmt_hex, fmt_i64, hex_fixed, lemma_parse_dec_int, parse_i64, parse_i64_chars};
use crate::strings::{chars_of, push_chars, push_str_chars, slice_chars, string_from};

verus! {

pub open spec fn fnv_offset() -> u64 {
    0xcbf2_9ce4_8422_2325
}

pub open spec fn fnv_prime() -> u64 {
    0x0000_0100_0000_01b3
}

/// FNV-1a over `bytes`.
pub open spec fn fnv1a_spec(bytes: Seq<u8>) -> u64
    decreases bytes.len(),
{
    if bytes.len() == 0 {
        fnv_offset()
    } else {
        vstd::wrapping::u64_specs::wrapping_mul(
            fnv1a_spec(bytes.drop_last()) ^ (bytes.last() as u64),
            fnv_prime(),
        )
    }
}

/// FNV-1a of the UTF-8 bytes of `s`.
pub fn fnv1a(s: &str) -> (h: u64)
    ensures
        h == fnv1a_spec(s.spec_bytes()),
{
    let bytes = s.as_bytes();
    let mut hash: u64 = 0xcbf2_9ce4_8422_2325;
    let mut i: usize = 0;
    while i < bytes.len()
        invariant
            i <= bytes@.len(),
            bytes@ == s.spec_bytes(),
            hash == fnv1a_spec(bytes@.take(i as int)),
        decreases bytes@.len() - i,
    {
        assert(bytes@.take(i + 1).drop_last() == bytes@.take(i as int));
        hash = (hash ^ (bytes[i] as u64)).wrapping_mul(0x0000_0100_0000_01b3);
        i += 1;
    }
    assert(bytes@.take(i as int) == bytes@);
    hash
}

/// `ar` + 16 lowercase hex digits of the FNV-1a hash of the artist name.
pub open spec fn artist_id_spec(artist: Seq<char>) -> Seq<char> {
    seq!['a', 'r'] + hex_fixed(fnv1a_spec(encode_utf8(artist)) as nat, 16)
}

/// `al` + 16 lowercase hex digits of the hash of artist, U+0001, album.
pub open spec fn album_id_spec(artist: Seq<char>, album: Seq<char>) -> Seq<char> {
    seq!['a', 'l'] + hex_fixed(
        fnv1a_spec(encode_utf8(artist + seq!['\u{1}'] + album)) as nat,
        16,
    )
}

pub open spec fn track_id_spec(id: i64) -> Seq<char> {
    seq!['t', 'r'] + dec_int(id as int)
}

pub open spec fn playlist_id_spec(id: i64) -> Seq<char> {
    seq!['p', 'l'] + dec_int(id as int)
}

/// The number after a two-letter prefix, if the prefix is there and the rest parses.
pub open spec fn parse_prefixed_id(s: Seq<char>, a: char, b: char) -> Option<i64> {
    if s.len() >= 2 && s[0] == a && s[1] == b {
        parse_i64(s.skip(2))
    } else {
        None
    }
}

fn prefixed(a: char, b: char, rest: &[char]) -> (out: String)
    ensures
        out@ == seq![a, b] + rest@,
{
    let mut v: Vec<char> = Vec::new();
    v.push(a);
    v.push(b);
    push_chars(&mut v, rest);
    assert(v@ =~= seq![a, b] + rest@);
    string_from(v.as_slice())
}

pub fn artist_id(artist: &str) -> (id: String)
    ensures
        id@ == artist_id_spec(artist@),
{
    let h = fnv1a(artist);
    let hex = fmt_hex(h, 16);
    prefixed('a', 'r', hex.as_slice())
}

pub fn album_id(artist: &str, album: &str) -> (id: String)
    ensures
        id@ == album_id_spec(artist@, album@),
{
    let mut v = chars_of(artist);
    v.push('\u{1}');
    push_str_chars(&mut v, album);
    let joined = string_from(v.as_slice());
    assert(joined@ =~= artist@ + seq!['\u{1}'] + album@);
    let h = fnv1a(joined.as_str());
    let hex = fmt_hex(h, 16);
    prefixed('a', 'l', hex.as_slice())
}

pub fn track_id(id: i64) -> (s: String)
    ensures
        s@ == track_id_spec(id),
{
    let d = fmt_i64(id);
    prefixed('t', 'r', d.as_slice())
}

pub fn playlist_id(id: i64) -> (s: String)
    ensures
        s@ == playlist_id_spec(id),
{
    let d = fmt_i64(id);
    prefixed('p', 'l', d.as_slice())
}

fn parse_prefixed(s: &str, a: char, b: char) -> (r: Option<i64>)
    ensures
        r == parse_prefixed_id(s@, a, b),
{
    let cs = chars_of(s);
    if cs.len() >= 2 && cs[0] == a && cs[1] == b {
        let rest = slice_chars(cs.as_slice(), 2, cs.len());
        assert(rest@ == s@.skip(2));
        parse_i64_chars(rest.as_slice())
    } else {
        None
    }
}

pub fn parse_track_id(id: &str) -> (r: Option<i64>)
    ensures
        r == parse_prefixed_id(id@, 't', 'r'),
{
    parse_prefixed(id, 't', 'r')
}

pub fn parse_playlist_id(id: &str) -> (r: Option<i64>)
    ensures
        r == parse_prefixed_id(id@, 'p', 'l'),
{
    parse_prefixed(id, 'p', 'l')
}

/// A track id handed out by the server parses back to the same row id.
pub proof fn lemma_track_id_round_trip(id: i64)
    ensures
        parse_prefixed_id(track_id_spec(id), 't', 'r') == Some(id),
{
    lemma_parse_dec_int(id);
    assert(track_id_spec(id).skip(2) =~= dec_int(id as int));
}

/// A playlist id handed out by the server parses back to the same row id.
pub proof fn lemma_playlist_id_round_trip(id: i64)
    ensures
        parse_prefixed_id(playlist_id_spec(id), 'p', 'l') == Some(id),
{
    lemma_parse_dec_int(id);
    assert(playlist_id_spec(id).skip(2) =~= dec_int(id as int));
}

/// Track ids and playlist ids never parse as each other.
pub proof fn lemma_track_and_playlist_ids_disjoint(id: i64)
    ensures
        parse_prefixed_id(track_id_spec(id), 'p', 'l') is None,
        parse_prefixed_id(playlist_id_spec(id), 't', 'r') is None,
{
}

/// The four kinds of id the server hands out (artist `ar…`, album `al…`,
/// track `tr…`, playlist `pl…`) never coincide, whatever they were made from.
pub proof fn lemma_id_kinds_disjoint(a: Seq<char>, b: Seq<char>, c: Seq<char>, t: i64, p: i64)
    ensures
        artist_id_spec(a) != album_id_spec(b, c),
        artist_id_spec(a) != track_id_spec(t),
        artist_id_spec(a) != playlist_id_spec(p),
        album_id_spec(b, c) != track_id_spec(t),
        album_id_spec(b, c) != playlist_id_spec(p),
        track_id_spec(t) != playlist_id_spec(p),
{
    assert(artist_id_spec(a)[1] == 'r');
    assert(album_id_spec(b, c)[1] == 'l');
    assert(track_id_spec(t)[0] == 't');
    assert(playlist_id_spec(p)[0] == 'p');
    assert(artist_id_spec(a)[0] == 'a');
    assert(album_id_spec(b, c)[0] == 'a');
}

} // verus!
