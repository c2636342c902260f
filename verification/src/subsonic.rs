//! Answering Subsonic requests from the library: the browse family
//! (folders, indexes, artists, albums, directories), playlists, and the
//! routing that decides what a request needs before anything is read.
use vstd::prelude::*;
use crate::catalog::{
    album_element, album_element_spec, durations_fit, indexes_spec, indexes_xml, song_xml,
    song_xml_spec, sum_ms, sums_fit, Album, ArtistGroup,
};
use crate::catalog::{content_type_for, content_type_spec};
use crate::paths::{extension_of, extension_spec};
use crate::auth::{check_auth, check_auth_spec};
use crate::http::{
    content_range, content_range_spec, lookup, method_of, method_spec, parse_query, parse_query_spec,
    parse_range, parse_range_spec, str_eq, QueryParams,
};
use crate::ids::{parse_playlist_id, parse_prefixed_id, parse_track_id, playlist_id, playlist_id_spec};
use crate::model::{Playlist, Track};
use crate::numbers::{dec, dec_int, fmt_i64, fmt_u64, tdiv};
use crate::strings::{chars_of, push_chars, push_str_chars, string_from};
use crate::xml::{
    error_envelope, error_envelope_spec, escape_spec, ok_envelope, ok_envelope_spec, push_escaped,
    push_ok_envelope,
};

verus! {

/// A playlist together with the ids of its tracks, in playlist order.
pub struct PlaylistEntry {
    pub playlist: Playlist,
    pub track_ids: Vec<i64>,
}

// ------------------------------------------------------------ finding

/// The first artist group whose id is `id`.
pub open spec fn find_artist(gs: Seq<ArtistGroup>, id: Seq<char>) -> Option<ArtistGroup>
    decreases gs.len(),
{
    if gs.len() == 0 {
        None
    } else if gs[0].id@ == id {
        Some(gs[0])
    } else {
        find_artist(gs.skip(1), id)
    }
}

/// The albums of all groups, in order.
pub open spec fn all_albums(gs: Seq<ArtistGroup>) -> Seq<Album>
    decreases gs.len(),
{
    if gs.len() == 0 {
        Seq::empty()
    } else {
        gs[0].albums@ + all_albums(gs.skip(1))
    }
}

/// The first album whose id is `id`.
pub open spec fn find_album(als: Seq<Album>, id: Seq<char>) -> Option<Album>
    decreases als.len(),
{
    if als.len() == 0 {
        None
    } else if als[0].id@ == id {
        Some(als[0])
    } else {
        find_album(als.skip(1), id)
    }
}

/// The first track with database id `id`.
pub open spec fn first_track(ts: Seq<Track>, id: i64) -> Option<Track>
    decreases ts.len(),
{
    if ts.len() == 0 {
        None
    } else if ts[0].id == id {
        Some(ts[0])
    } else {
        first_track(ts.skip(1), id)
    }
}

/// The first album holding a track with database id `id`, with that track.
pub open spec fn find_in_albums(als: Seq<Album>, id: i64) -> Option<(Track, Album)>
    decreases als.len(),
{
    if als.len() == 0 {
        None
    } else {
        match first_track(als[0].tracks@, id) {
            Some(t) => Some((t, als[0])),
            None => find_in_albums(als.skip(1), id),
        }
    }
}

/// The first playlist whose id is `id`.
pub open spec fn find_playlist(ps: Seq<PlaylistEntry>, id: i64) -> Option<PlaylistEntry>
    decreases ps.len(),
{
    if ps.len() == 0 {
        None
    } else if ps[0].playlist.id == id {
        Some(ps[0])
    } else {
        find_playlist(ps.skip(1), id)
    }
}

proof fn lemma_find_album_concat(a: Seq<Album>, b: Seq<Album>, id: Seq<char>)
    ensures
        find_album(a + b, id) == match find_album(a, id) {
            Some(x) => Some(x),
            None => find_album(b, id),
        },
    decreases a.len(),
{
    if a.len() > 0 {
        assert((a + b).skip(1) =~= a.skip(1) + b);
        assert((a + b)[0] == a[0]);
        lemma_find_album_concat(a.skip(1), b, id);
    } else {
        assert(a + b =~= b);
    }
}

proof fn lemma_find_in_albums_concat(a: Seq<Album>, b: Seq<Album>, id: i64)
    ensures
        find_in_albums(a + b, id) == match find_in_albums(a, id) {
            Some(x) => Some(x),
            None => find_in_albums(b, id),
        },
    decreases a.len(),
{
    if a.len() > 0 {
        assert((a + b).skip(1) =~= a.skip(1) + b);
        assert((a + b)[0] == a[0]);
        lemma_find_in_albums_concat(a.skip(1), b, id);
    } else {
        assert(a + b =~= b);
    }
}

fn find_artist_exec<'a>(gs: &'a [ArtistGroup], id: &str) -> (r: Option<&'a ArtistGroup>)
    ensures
        r matches Some(g) ==> find_artist(gs@, id@) == Some(*g),
        r is None ==> find_artist(gs@, id@) is None,
{
    let mut i: usize = 0;
    assert(gs@.skip(0) == gs@);
    while i < gs.len()
        invariant
            i <= gs@.len(),
            find_artist(gs@, id@) == find_artist(gs@.skip(i as int), id@),
        decreases gs@.len() - i,
    {
        let ghost rest = gs@.skip(i as int);
        assert(rest[0] == gs@[i as int]);
        assert(rest.skip(1) == gs@.skip(i + 1));
        if str_eq(gs[i].id.as_str(), id) {
            return Some(&gs[i]);
        }
        i += 1;
    }
    None
}

fn find_album_in<'a>(als: &'a [Album], id: &str) -> (r: Option<&'a Album>)
    ensures
        r matches Some(a) ==> find_album(als@, id@) == Some(*a),
        r is None ==> find_album(als@, id@) is None,
{
    let mut i: usize = 0;
    assert(als@.skip(0) == als@);
    while i < als.len()
        invariant
            i <= als@.len(),
            find_album(als@, id@) == find_album(als@.skip(i as int), id@),
        decreases als@.len() - i,
    {
        let ghost rest = als@.skip(i as int);
        assert(rest[0] == als@[i as int]);
        assert(rest.skip(1) == als@.skip(i + 1));
        if str_eq(als[i].id.as_str(), id) {
            return Some(&als[i]);
        }
        i += 1;
    }
    None
}

fn find_album_exec<'a>(gs: &'a [ArtistGroup], id: &str) -> (r: Option<&'a Album>)
    ensures
        r matches Some(a) ==> find_album(all_albums(gs@), id@) == Some(*a),
        r is None ==> find_album(all_albums(gs@), id@) is None,
{
    let mut i: usize = 0;
    assert(gs@.skip(0) == gs@);
    while i < gs.len()
        invariant
            i <= gs@.len(),
            find_album(all_albums(gs@), id@) == find_album(all_albums(gs@.skip(i as int)), id@),
        decreases gs@.len() - i,
    {
        let ghost rest = gs@.skip(i as int);
        assert(rest[0] == gs@[i as int]);
        assert(rest.skip(1) == gs@.skip(i + 1));
        proof {
            lemma_find_album_concat(gs@[i as int].albums@, all_albums(rest.skip(1)), id@);
        }
        match find_album_in(gs[i].albums.as_slice(), id) {
            Some(a) => {
                return Some(a);
            },
            None => {},
        }
        i += 1;
    }
    None
}

/// The first album whose id, or whose artist's id, is `id`.
pub open spec fn find_cover_album(als: Seq<Album>, id: Seq<char>) -> Option<Album>
    decreases als.len(),
{
    if als.len() == 0 {
        None
    } else if als[0].id@ == id || als[0].artist_id@ == id {
        Some(als[0])
    } else {
        find_cover_album(als.skip(1), id)
    }
}

/// The track whose picture stands for an album or artist id: the first
/// track of the first album with that id, or by the artist with that id.
pub open spec fn cover_track_spec(gs: Seq<ArtistGroup>, id: Seq<char>) -> Option<Track> {
    match find_cover_album(all_albums(gs), id) {
        Some(al) => if al.tracks@.len() > 0 {
            Some(al.tracks@[0])
        } else {
            None
        },
        None => None,
    }
}

proof fn lemma_find_cover_album_concat(a: Seq<Album>, b: Seq<Album>, id: Seq<char>)
    ensures
        find_cover_album(a + b, id) == match find_cover_album(a, id) {
            Some(x) => Some(x),
            None => find_cover_album(b, id),
        },
    decreases a.len(),
{
    if a.len() > 0 {
        assert((a + b).skip(1) =~= a.skip(1) + b);
        assert((a + b)[0] == a[0]);
        lemma_find_cover_album_concat(a.skip(1), b, id);
    } else {
        assert(a + b =~= b);
    }
}

fn find_cover_album_in<'a>(als: &'a [Album], id: &str) -> (r: Option<&'a Album>)
    ensures
        r matches Some(a) ==> find_cover_album(als@, id@) == Some(*a),
        r is None ==> find_cover_album(als@, id@) is None,
{
    let mut i: usize = 0;
    assert(als@.skip(0) == als@);
    while i < als.len()
        invariant
            i <= als@.len(),
            find_cover_album(als@, id@) == find_cover_album(als@.skip(i as int), id@),
        decreases als@.len() - i,
    {
        let ghost rest = als@.skip(i as int);
        assert(rest[0] == als@[i as int]);
        assert(rest.skip(1) == als@.skip(i + 1));
        if str_eq(als[i].id.as_str(), id) || str_eq(als[i].artist_id.as_str(), id) {
            return Some(&als[i]);
        }
        i += 1;
    }
    None
}

/// The track whose picture `getCoverArt` serves for an album or artist id.
pub fn cover_track<'a>(gs: &'a [ArtistGroup], id: &str) -> (r: Option<&'a Track>)
    ensures
        r matches Some(t) ==> cover_track_spec(gs@, id@) == Some(*t),
        r is None ==> cover_track_spec(gs@, id@) is None,
{
    let mut i: usize = 0;
    assert(gs@.skip(0) == gs@);
    while i < gs.len()
        invariant
            i <= gs@.len(),
            find_cover_album(all_albums(gs@), id@) == find_cover_album(all_albums(gs@.skip(i as int)), id@),
        decreases gs@.len() - i,
    {
        let ghost rest = gs@.skip(i as int);
        assert(rest[0] == gs@[i as int]);
        assert(rest.skip(1) == gs@.skip(i + 1));
        proof {
            lemma_find_cover_album_concat(gs@[i as int].albums@, all_albums(rest.skip(1)), id@);
        }
        match find_cover_album_in(gs[i].albums.as_slice(), id) {
            Some(a) => {
                return if a.tracks.len() > 0 {
                    Some(&a.tracks[0])
                } else {
                    None
                };
            },
            None => {},
        }
        i += 1;
    }
    None
}

fn first_track_exec<'a>(ts: &'a [Track], id: i64) -> (r: Option<&'a Track>)
    ensures
        r matches Some(t) ==> first_track(ts@, id) == Some(*t),
        r is None ==> first_track(ts@, id) is None,
{
    let mut i: usize = 0;
    assert(ts@.skip(0) == ts@);
    while i < ts.len()
        invariant
            i <= ts@.len(),
            first_track(ts@, id) == first_track(ts@.skip(i as int), id),
        decreases ts@.len() - i,
    {
        let ghost rest = ts@.skip(i as int);
        assert(rest[0] == ts@[i as int]);
        assert(rest.skip(1) == ts@.skip(i + 1));
        if ts[i].id == id {
            return Some(&ts[i]);
        }
        i += 1;
    }
    None
}

fn find_in_albums_exec<'a>(als: &'a [Album], id: i64) -> (r: Option<(&'a Track, &'a Album)>)
    ensures
        r matches Some((t, a)) ==> find_in_albums(als@, id) == Some((*t, *a)),
        r is None ==> find_in_albums(als@, id) is None,
{
    let mut i: usize = 0;
    assert(als@.skip(0) == als@);
    while i < als.len()
        invariant
            i <= als@.len(),
            find_in_albums(als@, id) == find_in_albums(als@.skip(i as int), id),
        decreases als@.len() - i,
    {
        let ghost rest = als@.skip(i as int);
        assert(rest[0] == als@[i as int]);
        assert(rest.skip(1) == als@.skip(i + 1));
        match first_track_exec(als[i].tracks.as_slice(), id) {
            Some(t) => {
                return Some((t, &als[i]));
            },
            None => {},
        }
        i += 1;
    }
    None
}

/// Looks a track up by database id across the whole grouped library.
fn find_track_exec<'a>(gs: &'a [ArtistGroup], id: i64) -> (r: Option<(&'a Track, &'a Album)>)
    ensures
        r matches Some((t, a)) ==> find_in_albums(all_albums(gs@), id) == Some((*t, *a)),
        r is None ==> find_in_albums(all_albums(gs@), id) is None,
{
    let mut i: usize = 0;
    assert(gs@.skip(0) == gs@);
    while i < gs.len()
        invariant
            i <= gs@.len(),
            find_in_albums(all_albums(gs@), id) == find_in_albums(
                all_albums(gs@.skip(i as int)),
                id,
            ),
        decreases gs@.len() - i,
    {
        let ghost rest = gs@.skip(i as int);
        assert(rest[0] == gs@[i as int]);
        assert(rest.skip(1) == gs@.skip(i + 1));
        proof {
            lemma_find_in_albums_concat(gs@[i as int].albums@, all_albums(rest.skip(1)), id);
        }
        match find_in_albums_exec(gs[i].albums.as_slice(), id) {
            Some(r) => {
                return Some(r);
            },
            None => {},
        }
        i += 1;
    }
    None
}

fn find_playlist_exec<'a>(ps: &'a [PlaylistEntry], id: i64) -> (r: Option<&'a PlaylistEntry>)
    ensures
        r matches Some(p) ==> find_playlist(ps@, id) == Some(*p),
        r is None ==> find_playlist(ps@, id) is None,
{
    let mut i: usize = 0;
    assert(ps@.skip(0) == ps@);
    while i < ps.len()
        invariant
            i <= ps@.len(),
            find_playlist(ps@, id) == find_playlist(ps@.skip(i as int), id),
        decreases ps@.len() - i,
    {
        let ghost rest = ps@.skip(i as int);
        assert(rest[0] == ps@[i as int]);
        assert(rest.skip(1) == ps@.skip(i + 1));
        if ps[i].playlist.id == id {
            return Some(&ps[i]);
        }
        i += 1;
    }
    None
}

// ------------------------------------------------------------ rendering

/// Every album's running duration total fits in an `i64`.
pub open spec fn albums_fit(als: Seq<Album>) -> bool {
    forall|k: int| 0 <= k < als.len() ==> sums_fit(#[trigger] als[k].tracks@)
}

/// The album elements of `als`, each under `tag`.
pub open spec fn albums_xml(als: Seq<Album>, tag: Seq<char>) -> Seq<char>
    decreases als.len(),
{
    if als.len() == 0 {
        Seq::empty()
    } else {
        albums_xml(als.drop_last(), tag) + album_element_spec(als.last(), tag)
    }
}

/// The `<song>` elements of the tracks `ts` of `al`.
pub open spec fn songs_xml(ts: Seq<Track>, al: Album) -> Seq<char>
    decreases ts.len(),
{
    if ts.len() == 0 {
        Seq::empty()
    } else {
        songs_xml(ts.drop_last(), al) + song_xml_spec(ts.last(), al)
    }
}

/// A `<song ...>` element renamed to `<tag ...>`: its first six characters
/// (`<song `) give way to `<`, the tag and a space.
pub open spec fn retag(x: Seq<char>, tag: Seq<char>) -> Seq<char> {
    seq!['<'] + tag + seq![' '] + x.skip(6)
}

/// The song elements of the tracks `ts` of `al`, renamed to `tag`.
pub open spec fn songs_as(ts: Seq<Track>, al: Album, tag: Seq<char>) -> Seq<char>
    decreases ts.len(),
{
    if ts.len() == 0 {
        Seq::empty()
    } else {
        songs_as(ts.drop_last(), al, tag) + retag(song_xml_spec(ts.last(), al), tag)
    }
}

fn push_albums(out: &mut Vec<char>, als: &[Album], tag: &str)
    requires
        albums_fit(als@),
    ensures
        final(out)@ == old(out)@ + albums_xml(als@, tag@),
{
    let ghost start = out@;
    let mut i: usize = 0;
    assert(als@.take(0) =~= Seq::<Album>::empty());
    while i < als.len()
        invariant
            i <= als@.len(),
            albums_fit(als@),
            out@ == start + albums_xml(als@.take(i as int), tag@),
        decreases als@.len() - i,
    {
        assert(als@.take(i + 1).drop_last() == als@.take(i as int));
        assert(als@.take(i + 1).last() == als@[i as int]);
        assert(sums_fit(als@[i as int].tracks@));
        let x = album_element(&als[i], tag);
        push_str_chars(out, x.as_str());
        i += 1;
    }
    assert(als@.take(als@.len() as int) == als@);
}

fn push_songs(out: &mut Vec<char>, al: &Album)
    ensures
        final(out)@ == old(out)@ + songs_xml(al.tracks@, *al),
{
    let ghost start = out@;
    let ts = &al.tracks;
    let mut i: usize = 0;
    assert(ts@.take(0) =~= Seq::<Track>::empty());
    while i < ts.len()
        invariant
            i <= ts@.len(),
            ts@ == al.tracks@,
            out@ == start + songs_xml(ts@.take(i as int), *al),
        decreases ts@.len() - i,
    {
        assert(ts@.take(i + 1).drop_last() == ts@.take(i as int));
        assert(ts@.take(i + 1).last() == ts@[i as int]);
        let x = song_xml(&ts[i], al);
        push_str_chars(out, x.as_str());
        i += 1;
    }
    assert(ts@.take(ts@.len() as int) == ts@);
}

/// Appends `x` (a `<song ...>` element) renamed to `tag`.
fn push_retagged(out: &mut Vec<char>, x: &str, tag: &str)
    requires
        x@.len() >= 6,
    ensures
        final(out)@ == old(out)@ + retag(x@, tag@),
{
    let ghost start = out@;
    let xc = chars_of(x);
    out.push('<');
    push_str_chars(out, tag);
    out.push(' ');
    let mut i: usize = 6;
    while i < xc.len()
        invariant
            6 <= i <= xc@.len(),
            xc@ == x@,
            out@ == start + seq!['<'] + tag@ + seq![' '] + x@.subrange(6, i as int),
        decreases xc@.len() - i,
    {
        out.push(xc[i]);
        assert(x@.subrange(6, i + 1) == x@.subrange(6, i as int).push(x@[i as int]));
        i += 1;
    }
    assert(x@.subrange(6, x@.len() as int) == x@.skip(6));
    assert(out@ =~= start + retag(x@, tag@));
}

proof fn lemma_song_xml_len(t: Track, al: Album)
    ensures
        song_xml_spec(t, al).len() >= 6,
{
    reveal_strlit("<song id=\"");
}

fn push_songs_as(out: &mut Vec<char>, al: &Album, tag: &str)
    ensures
        final(out)@ == old(out)@ + songs_as(al.tracks@, *al, tag@),
{
    let ghost start = out@;
    let ts = &al.tracks;
    let mut i: usize = 0;
    assert(ts@.take(0) =~= Seq::<Track>::empty());
    while i < ts.len()
        invariant
            i <= ts@.len(),
            ts@ == al.tracks@,
            out@ == start + songs_as(ts@.take(i as int), *al, tag@),
        decreases ts@.len() - i,
    {
        assert(ts@.take(i + 1).drop_last() == ts@.take(i as int));
        assert(ts@.take(i + 1).last() == ts@[i as int]);
        let x = song_xml(&ts[i], al);
        proof {
            lemma_song_xml_len(ts@[i as int], *al);
        }
        push_retagged(out, x.as_str(), tag);
        i += 1;
    }
    assert(ts@.take(ts@.len() as int) == ts@);
}

fn push_u64(v: &mut Vec<char>, n: u64)
    ensures
        final(v)@ == old(v)@ + dec(n as nat),
{
    let d = fmt_u64(n);
    push_chars(v, d.as_slice());
}

fn push_i64(v: &mut Vec<char>, n: i64)
    ensures
        final(v)@ == old(v)@ + dec_int(n as int),
{
    let d = fmt_i64(n);
    push_chars(v, d.as_slice());
}

fn push_escaped_str(v: &mut Vec<char>, s: &str)
    ensures
        final(v)@ == old(v)@ + escape_spec(s@),
{
    let cs = chars_of(s);
    push_escaped(v, cs.as_slice());
}

/// Wraps the characters of `body` in a successful response.
fn envelope(body: &Vec<char>) -> (s: String)
    ensures
        s@ == ok_envelope_spec(body@),
{
    let b = string_from(body.as_slice());
    let mut out: Vec<char> = Vec::new();
    push_ok_envelope(&mut out, b.as_str());
    string_from(out.as_slice())
}

// ------------------------------------------------------------ browsing

/// getArtist: the artist with its albums.
pub open spec fn artist_body(g: ArtistGroup) -> Seq<char> {
    "<artist id=\""@ + g.id@ + "\" name=\""@ + escape_spec(g.name@) + "\" albumCount=\""@ + dec(
        g.albums@.len(),
    ) + "\">"@ + albums_xml(g.albums@, "album"@) + "</artist>"@
}

/// getAlbum: the album (under the id it was asked for) with its songs.
pub open spec fn album_body(id: Seq<char>, al: Album) -> Seq<char> {
    "<album id=\""@ + id + "\" name=\""@ + escape_spec(al.name@) + "\" artist=\""@ + escape_spec(
        al.artist@,
    ) + "\" artistId=\""@ + al.artist_id@ + "\" songCount=\""@ + dec(al.tracks@.len())
        + "\" duration=\""@ + dec_int(tdiv(sum_ms(al.tracks@), 1000)) + "\" coverArt=\""@ + id
        + "\">"@ + songs_xml(al.tracks@, al) + "</album>"@
}

/// getMusicDirectory on an artist id: its albums as children.
pub open spec fn artist_dir_body(g: ArtistGroup) -> Seq<char> {
    "<directory id=\""@ + g.id@ + "\" name=\""@ + escape_spec(g.name@) + "\">"@ + albums_xml(
        g.albums@,
        "child"@,
    ) + "</directory>"@
}

/// getMusicDirectory on an album id: its songs as children.
pub open spec fn album_dir_body(al: Album) -> Seq<char> {
    "<directory id=\""@ + al.id@ + "\" parent=\""@ + al.artist_id@ + "\" name=\""@ + escape_spec(
        al.name@,
    ) + "\">"@ + songs_as(al.tracks@, al, "child"@) + "</directory>"@
}

pub open spec fn folders_body() -> Seq<char> {
    "<musicFolders><musicFolder id=\"0\" name=\"Melodie\"/></musicFolders>"@
}

pub open spec fn indexes_body(gs: Seq<ArtistGroup>) -> Seq<char> {
    "<indexes lastModified=\"0\" ignoredArticles=\"The El La Los Las Le Les\">"@ + indexes_spec(
        gs,
        false,
    ) + "</indexes>"@
}

pub open spec fn artists_body(gs: Seq<ArtistGroup>) -> Seq<char> {
    "<artists ignoredArticles=\"The El La Los Las Le Les\">"@ + indexes_spec(gs, true)
        + "</artists>"@
}

pub open spec fn key_id() -> Seq<char> {
    "id"@
}

/// The answer of the browse family to `method`, or `None` when the method
/// is not one of them or the id it names is missing or unknown.
pub open spec fn browse_spec(method: Seq<char>, q: Seq<(Seq<char>, Seq<char>)>, gs: Seq<ArtistGroup>) -> Option<Seq<char>> {
    if method == "getMusicFolders"@ {
        Some(ok_envelope_spec(folders_body()))
    } else if method == "getIndexes"@ {
        Some(ok_envelope_spec(indexes_body(gs)))
    } else if method == "getArtists"@ {
        Some(ok_envelope_spec(artists_body(gs)))
    } else if method == "getArtist"@ {
        match lookup(q, key_id()) {
            None => None,
            Some(id) => match find_artist(gs, id) {
                None => None,
                Some(g) => Some(ok_envelope_spec(artist_body(g))),
            },
        }
    } else if method == "getAlbum"@ {
        match lookup(q, key_id()) {
            None => None,
            Some(id) => match find_album(all_albums(gs), id) {
                None => None,
                Some(al) => Some(ok_envelope_spec(album_body(id, al))),
            },
        }
    } else if method == "getMusicDirectory"@ {
        match lookup(q, key_id()) {
            None => None,
            Some(id) => match find_artist(gs, id) {
                Some(g) => Some(ok_envelope_spec(artist_dir_body(g))),
                None => match find_album(all_albums(gs), id) {
                    None => None,
                    Some(al) => Some(ok_envelope_spec(album_dir_body(al))),
                },
            },
        }
    } else {
        None
    }
}

/// The album durations that answering `method` adds up fit in an `i64`.
pub open spec fn browse_fits(method: Seq<char>, q: Seq<(Seq<char>, Seq<char>)>, gs: Seq<ArtistGroup>) -> bool {
    match lookup(q, key_id()) {
        None => true,
        Some(id) => {
            &&& (method == "getArtist"@ || method == "getMusicDirectory"@) && find_artist(gs, id) is Some
                ==> albums_fit(find_artist(gs, id)->0.albums@)
            &&& method == "getAlbum"@ && find_album(all_albums(gs), id) is Some ==> sums_fit(
                find_album(all_albums(gs), id)->0.tracks@,
            )
        },
    }
}

fn artist_reply(g: &ArtistGroup) -> (s: String)
    requires
        albums_fit(g.albums@),
    ensures
        s@ == ok_envelope_spec(artist_body(*g)),
{
    let mut v: Vec<char> = Vec::new();
    push_str_chars(&mut v, "<artist id=\"");
    push_str_chars(&mut v, g.id.as_str());
    push_str_chars(&mut v, "\" name=\"");
    push_escaped_str(&mut v, g.name.as_str());
    push_str_chars(&mut v, "\" albumCount=\"");
    push_u64(&mut v, g.albums.len() as u64);
    push_str_chars(&mut v, "\">");
    push_albums(&mut v, g.albums.as_slice(), "album");
    push_str_chars(&mut v, "</artist>");
    assert(v@ =~= artist_body(*g));
    envelope(&v)
}

fn album_reply(id: &str, al: &Album) -> (s: String)
    requires
        sums_fit(al.tracks@),
    ensures
        s@ == ok_envelope_spec(album_body(id@, *al)),
{
    let mut v: Vec<char> = Vec::new();
    push_str_chars(&mut v, "<album id=\"");
    push_str_chars(&mut v, id);
    push_str_chars(&mut v, "\" name=\"");
    push_escaped_str(&mut v, al.name.as_str());
    push_str_chars(&mut v, "\" artist=\"");
    push_escaped_str(&mut v, al.artist.as_str());
    push_str_chars(&mut v, "\" artistId=\"");
    push_str_chars(&mut v, al.artist_id.as_str());
    push_str_chars(&mut v, "\" songCount=\"");
    push_u64(&mut v, al.tracks.len() as u64);
    push_str_chars(&mut v, "\" duration=\"");
    push_i64(&mut v, al.duration_secs());
    push_str_chars(&mut v, "\" coverArt=\"");
    push_str_chars(&mut v, id);
    push_str_chars(&mut v, "\">");
    push_songs(&mut v, al);
    push_str_chars(&mut v, "</album>");
    assert(v@ =~= album_body(id@, *al));
    envelope(&v)
}

fn artist_dir_reply(g: &ArtistGroup) -> (s: String)
    requires
        albums_fit(g.albums@),
    ensures
        s@ == ok_envelope_spec(artist_dir_body(*g)),
{
    let mut v: Vec<char> = Vec::new();
    push_str_chars(&mut v, "<directory id=\"");
    push_str_chars(&mut v, g.id.as_str());
    push_str_chars(&mut v, "\" name=\"");
    push_escaped_str(&mut v, g.name.as_str());
    push_str_chars(&mut v, "\">");
    push_albums(&mut v, g.albums.as_slice(), "child");
    push_str_chars(&mut v, "</directory>");
    assert(v@ =~= artist_dir_body(*g));
    envelope(&v)
}

fn album_dir_reply(al: &Album) -> (s: String)
    ensures
        s@ == ok_envelope_spec(album_dir_body(*al)),
{
    let mut v: Vec<char> = Vec::new();
    push_str_chars(&mut v, "<directory id=\"");
    push_str_chars(&mut v, al.id.as_str());
    push_str_chars(&mut v, "\" parent=\"");
    push_str_chars(&mut v, al.artist_id.as_str());
    push_str_chars(&mut v, "\" name=\"");
    push_escaped_str(&mut v, al.name.as_str());
    push_str_chars(&mut v, "\">");
    push_songs_as(&mut v, al, "child");
    push_str_chars(&mut v, "</directory>");
    assert(v@ =~= album_dir_body(*al));
    envelope(&v)
}

fn indexes_reply(gs: &[ArtistGroup], with_album_count: bool) -> (s: String)
    ensures
        s@ == ok_envelope_spec(
            if with_album_count {
                artists_body(gs@)
            } else {
                indexes_body(gs@)
            },
        ),
{
    let mut v: Vec<char> = Vec::new();
    if with_album_count {
        push_str_chars(&mut v, "<artists ignoredArticles=\"The El La Los Las Le Les\">");
    } else {
        push_str_chars(
            &mut v,
            "<indexes lastModified=\"0\" ignoredArticles=\"The El La Los Las Le Les\">",
        );
    }
    let x = indexes_xml(gs, with_album_count);
    push_str_chars(&mut v, x.as_str());
    if with_album_count {
        push_str_chars(&mut v, "</artists>");
        assert(v@ =~= artists_body(gs@));
    } else {
        push_str_chars(&mut v, "</indexes>");
        assert(v@ =~= indexes_body(gs@));
    }
    envelope(&v)
}

/// The browse family: music folders, indexes, artists, an artist, an
/// album, a directory. `None` for any other method, and when the id it
/// names is missing or unknown.
pub fn handle_browse(method: &str, q: &QueryParams, gs: &[ArtistGroup]) -> (r: Option<String>)
    requires
        browse_fits(method@, q@, gs@),
    ensures
        r matches Some(x) ==> browse_spec(method@, q@, gs@) == Some(x@),
        r is None ==> browse_spec(method@, q@, gs@) is None,
{
    proof {
        reveal_strlit("id");
    }
    assert("id"@ =~= key_id());
    if str_eq(method, "getMusicFolders") {
        let mut v: Vec<char> = Vec::new();
        push_str_chars(&mut v, "<musicFolders><musicFolder id=\"0\" name=\"Melodie\"/></musicFolders>");
        Some(envelope(&v))
    } else if str_eq(method, "getIndexes") {
        Some(indexes_reply(gs, false))
    } else if str_eq(method, "getArtists") {
        Some(indexes_reply(gs, true))
    } else if str_eq(method, "getArtist") {
        let id = match q.get("id") {
            Some(id) => id,
            None => {
                return None;
            },
        };
        match find_artist_exec(gs, id.as_str()) {
            Some(g) => Some(artist_reply(g)),
            None => None,
        }
    } else if str_eq(method, "getAlbum") {
        let id = match q.get("id") {
            Some(id) => id,
            None => {
                return None;
            },
        };
        match find_album_exec(gs, id.as_str()) {
            Some(al) => Some(album_reply(id.as_str(), al)),
            None => None,
        }
    } else if str_eq(method, "getMusicDirectory") {
        let id = match q.get("id") {
            Some(id) => id,
            None => {
                return None;
            },
        };
        match find_artist_exec(gs, id.as_str()) {
            Some(g) => Some(artist_dir_reply(g)),
            None => match find_album_exec(gs, id.as_str()) {
                Some(al) => Some(album_dir_reply(al)),
                None => None,
            },
        }
    } else {
        None
    }
}

// ------------------------------------------------------------ playlists

/// The duration a playlist counts for the track with database id `id`:
/// its own when the library has it, nothing otherwise.
pub open spec fn track_ms(gs: Seq<ArtistGroup>, id: i64) -> int {
    match find_in_albums(all_albums(gs), id) {
        Some((t, _)) => t.duration_ms as int,
        None => 0,
    }
}

/// Milliseconds summed over the tracks of `ids` that the library has.
pub open spec fn ids_ms(gs: Seq<ArtistGroup>, ids: Seq<i64>) -> int
    decreases ids.len(),
{
    if ids.len() == 0 {
        0
    } else {
        ids_ms(gs, ids.drop_last()) + track_ms(gs, ids.last())
    }
}

/// Every running total of `ids_ms` fits in an `i64`.
pub open spec fn ids_fit(gs: Seq<ArtistGroup>, ids: Seq<i64>) -> bool {
    forall|k: int| 0 <= k <= ids.len() ==> i64::MIN <= #[trigger] ids_ms(gs, ids.take(k)) <= i64::MAX
}

/// The `<entry>` elements of a playlist: one per track the library has,
/// in playlist order.
pub open spec fn entries_xml(gs: Seq<ArtistGroup>, ids: Seq<i64>) -> Seq<char>
    decreases ids.len(),
{
    if ids.len() == 0 {
        Seq::empty()
    } else {
        entries_xml(gs, ids.drop_last()) + match find_in_albums(all_albums(gs), ids.last()) {
            Some((t, al)) => retag(song_xml_spec(t, al), "entry"@),
            None => Seq::empty(),
        }
    }
}

/// The attributes shared by both playlist elements, up to the closing of
/// the start tag.
pub open spec fn playlist_head(p: PlaylistEntry, gs: Seq<ArtistGroup>) -> Seq<char> {
    "<playlist id=\""@ + playlist_id_spec(p.playlist.id) + "\" name=\""@ + escape_spec(
        p.playlist.name@,
    ) + "\" songCount=\""@ + dec(p.track_ids@.len()) + "\" duration=\""@ + dec_int(
        tdiv(ids_ms(gs, p.track_ids@), 1000),
    ) + "\" owner=\"melodie\" public=\"false\""@
}

/// The `<playlist .../>` lines of getPlaylists.
pub open spec fn playlist_lines(ps: Seq<PlaylistEntry>, gs: Seq<ArtistGroup>) -> Seq<char>
    decreases ps.len(),
{
    if ps.len() == 0 {
        Seq::empty()
    } else {
        playlist_lines(ps.drop_last(), gs) + playlist_head(ps.last(), gs) + "/>"@
    }
}

/// getPlaylist: the playlist with its entries.
pub open spec fn playlist_body(p: PlaylistEntry, gs: Seq<ArtistGroup>) -> Seq<char> {
    playlist_head(p, gs) + ">"@ + entries_xml(gs, p.track_ids@) + "</playlist>"@
}

/// The answer of the playlist family to `method`, or `None` when the method
/// is not one of them or the playlist it names is missing or unknown.
pub open spec fn playlists_spec(
    method: Seq<char>,
    q: Seq<(Seq<char>, Seq<char>)>,
    ps: Seq<PlaylistEntry>,
    gs: Seq<ArtistGroup>,
) -> Option<Seq<char>> {
    if method == "getPlaylists"@ {
        Some(ok_envelope_spec("<playlists>"@ + playlist_lines(ps, gs) + "</playlists>"@))
    } else if method == "getPlaylist"@ {
        match lookup(q, key_id()) {
            None => None,
            Some(raw) => match parse_prefixed_id(raw, 'p', 'l') {
                None => None,
                Some(id) => match find_playlist(ps, id) {
                    None => None,
                    Some(p) => Some(ok_envelope_spec(playlist_body(p, gs))),
                },
            },
        }
    } else {
        None
    }
}

/// The playlist durations that answering `method` adds up fit in an `i64`.
pub open spec fn playlists_fit(
    method: Seq<char>,
    q: Seq<(Seq<char>, Seq<char>)>,
    ps: Seq<PlaylistEntry>,
    gs: Seq<ArtistGroup>,
) -> bool {
    &&& method == "getPlaylists"@ ==> forall|k: int|
        0 <= k < ps.len() ==> ids_fit(gs, #[trigger] ps[k].track_ids@)
    &&& method == "getPlaylist"@ ==> match lookup(q, key_id()) {
        None => true,
        Some(raw) => match parse_prefixed_id(raw, 'p', 'l') {
            None => true,
            Some(id) => match find_playlist(ps, id) {
                None => true,
                Some(p) => ids_fit(gs, p.track_ids@),
            },
        },
    }
}

fn ids_total(gs: &[ArtistGroup], ids: &[i64]) -> (total: i64)
    requires
        ids_fit(gs@, ids@),
    ensures
        total == ids_ms(gs@, ids@),
{
    let mut total: i64 = 0;
    let mut i: usize = 0;
    assert(ids@.take(0) =~= Seq::<i64>::empty());
    while i < ids.len()
        invariant
            i <= ids@.len(),
            ids_fit(gs@, ids@),
            total == ids_ms(gs@, ids@.take(i as int)),
        decreases ids@.len() - i,
    {
        assert(ids@.take(i + 1).drop_last() == ids@.take(i as int));
        assert(ids@.take(i + 1).last() == ids@[i as int]);
        assert(i64::MIN <= ids_ms(gs@, ids@.take(i + 1)) <= i64::MAX);
        match find_track_exec(gs, ids[i]) {
            Some((t, _)) => {
                total = total + t.duration_ms;
            },
            None => {},
        }
        i += 1;
    }
    assert(ids@.take(ids@.len() as int) == ids@);
    total
}

fn push_entries(out: &mut Vec<char>, gs: &[ArtistGroup], ids: &[i64])
    ensures
        final(out)@ == old(out)@ + entries_xml(gs@, ids@),
{
    let ghost start = out@;
    let mut i: usize = 0;
    assert(ids@.take(0) =~= Seq::<i64>::empty());
    while i < ids.len()
        invariant
            i <= ids@.len(),
            out@ == start + entries_xml(gs@, ids@.take(i as int)),
        decreases ids@.len() - i,
    {
        assert(ids@.take(i + 1).drop_last() == ids@.take(i as int));
        assert(ids@.take(i + 1).last() == ids@[i as int]);
        match find_track_exec(gs, ids[i]) {
            Some((t, al)) => {
                let x = song_xml(t, al);
                proof {
                    lemma_song_xml_len(*t, *al);
                }
                push_retagged(out, x.as_str(), "entry");
            },
            None => {},
        }
        i += 1;
    }
    assert(ids@.take(ids@.len() as int) == ids@);
}

fn push_playlist_head(out: &mut Vec<char>, p: &PlaylistEntry, gs: &[ArtistGroup])
    requires
        ids_fit(gs@, p.track_ids@),
    ensures
        final(out)@ == old(out)@ + playlist_head(*p, gs@),
{
    let ghost start = out@;
    push_str_chars(out, "<playlist id=\"");
    let pid = playlist_id(p.playlist.id);
    push_str_chars(out, pid.as_str());
    push_str_chars(out, "\" name=\"");
    push_escaped_str(out, p.playlist.name.as_str());
    push_str_chars(out, "\" songCount=\"");
    push_u64(out, p.track_ids.len() as u64);
    push_str_chars(out, "\" duration=\"");
    let total = ids_total(gs, p.track_ids.as_slice());
    push_i64(out, total / 1000);
    push_str_chars(out, "\" owner=\"melodie\" public=\"false\"");
    assert(out@ =~= start + playlist_head(*p, gs@));
}

fn playlists_reply(ps: &[PlaylistEntry], gs: &[ArtistGroup]) -> (s: String)
    requires
        forall|k: int| 0 <= k < ps@.len() ==> ids_fit(gs@, #[trigger] ps@[k].track_ids@),
    ensures
        s@ == ok_envelope_spec("<playlists>"@ + playlist_lines(ps@, gs@) + "</playlists>"@),
{
    let mut v: Vec<char> = Vec::new();
    push_str_chars(&mut v, "<playlists>");
    let ghost start = v@;
    let mut i: usize = 0;
    assert(ps@.take(0) =~= Seq::<PlaylistEntry>::empty());
    while i < ps.len()
        invariant
            i <= ps@.len(),
            forall|k: int| 0 <= k < ps@.len() ==> ids_fit(gs@, #[trigger] ps@[k].track_ids@),
            v@ == start + playlist_lines(ps@.take(i as int), gs@),
        decreases ps@.len() - i,
    {
        assert(ps@.take(i + 1).drop_last() == ps@.take(i as int));
        assert(ps@.take(i + 1).last() == ps@[i as int]);
        assert(ids_fit(gs@, ps@[i as int].track_ids@));
        push_playlist_head(&mut v, &ps[i], gs);
        push_str_chars(&mut v, "/>");
        i += 1;
    }
    assert(ps@.take(ps@.len() as int) == ps@);
    push_str_chars(&mut v, "</playlists>");
    envelope(&v)
}

fn playlist_reply(p: &PlaylistEntry, gs: &[ArtistGroup]) -> (s: String)
    requires
        ids_fit(gs@, p.track_ids@),
    ensures
        s@ == ok_envelope_spec(playlist_body(*p, gs@)),
{
    let mut v: Vec<char> = Vec::new();
    push_playlist_head(&mut v, p, gs);
    push_str_chars(&mut v, ">");
    push_entries(&mut v, gs, p.track_ids.as_slice());
    push_str_chars(&mut v, "</playlist>");
    assert(v@ =~= playlist_body(*p, gs@));
    envelope(&v)
}

/// The playlist family: getPlaylists lists every playlist with its song
/// count and duration; getPlaylist (`id=plN`) adds the entries. `None` for
/// any other method, and when the id is missing, malformed or unknown.
pub fn handle_playlists(method: &str, q: &QueryParams, ps: &[PlaylistEntry], gs: &[ArtistGroup]) -> (r: Option<String>)
    requires
        playlists_fit(method@, q@, ps@, gs@),
    ensures
        r matches Some(x) ==> playlists_spec(method@, q@, ps@, gs@) == Some(x@),
        r is None ==> playlists_spec(method@, q@, ps@, gs@) is None,
{
    proof {
        reveal_strlit("id");
    }
    assert("id"@ =~= key_id());
    if str_eq(method, "getPlaylists") {
        Some(playlists_reply(ps, gs))
    } else if str_eq(method, "getPlaylist") {
        let raw = match q.get("id") {
            Some(raw) => raw,
            None => {
                return None;
            },
        };
        let id = match parse_playlist_id(raw.as_str()) {
            Some(id) => id,
            None => {
                return None;
            },
        };
        match find_playlist_exec(ps, id) {
            Some(p) => Some(playlist_reply(p, gs)),
            None => None,
        }
    } else {
        None
    }
}

// ------------------------------------------------------------ routing

/// What a request needs next.
pub enum Step {
    /// Send this XML document.
    Reply(String),
    /// Stream (or download) the track with this database id; `None` when
    /// the `id` parameter is missing or is not `trN`.
    Stream(Option<i64>),
    /// Send the cover art for this id (a track, album or artist id);
    /// `None` when the `id` parameter is missing.
    Cover(Option<String>),
    /// Answer from the library with `answer`; `true` when the playlists
    /// are needed too.
    Library(bool),
}

/// `Step` with its text as characters.
pub enum StepView {
    Reply(Seq<char>),
    Stream(Option<i64>),
    Cover(Option<Seq<char>>),
    Library(bool),
}

impl View for Step {
    type V = StepView;

    open spec fn view(&self) -> StepView {
        match self {
            Step::Reply(x) => StepView::Reply(x@),
            Step::Stream(id) => StepView::Stream(*id),
            Step::Cover(id) => StepView::Cover(
                match id {
                    Some(x) => Some(x@),
                    None => None,
                },
            ),
            Step::Library(p) => StepView::Library(*p),
        }
    }
}

/// Subsonic error 40: the credentials did not check out.
pub open spec fn denied_spec() -> Seq<char> {
    error_envelope_spec(40, "Wrong username or password"@)
}

/// Subsonic error 70: an unsupported method or an unknown id.
pub open spec fn not_found_spec() -> Seq<char> {
    error_envelope_spec(70, "Requested data was not found"@)
}

/// The methods answered from the library's tracks alone.
pub open spec fn browse_method(m: Seq<char>) -> bool {
    ||| m == "getIndexes"@
    ||| m == "getArtists"@
    ||| m == "getArtist"@
    ||| m == "getAlbum"@
    ||| m == "getMusicDirectory"@
}

/// The methods that need the playlists as well as the tracks.
pub open spec fn playlist_method(m: Seq<char>) -> bool {
    m == "getPlaylists"@ || m == "getPlaylist"@
}

/// What a request for `url` authenticated against `token` needs: a denial,
/// a stream, an answer that needs no data, or an answer from the library.
pub open spec fn begin_spec(url: Seq<char>, token: Seq<char>) -> StepView {
    let q = parse_query_spec(url);
    let m = method_spec(url);
    if !check_auth_spec(token, q) {
        StepView::Reply(denied_spec())
    } else if m == "stream"@ || m == "download"@ {
        StepView::Stream(
            match lookup(q, key_id()) {
                Some(id) => parse_prefixed_id(id, 't', 'r'),
                None => None,
            },
        )
    } else if m == "getCoverArt"@ {
        StepView::Cover(lookup(q, key_id()))
    } else if m == "ping"@ || m == "scrobble"@ {
        StepView::Reply(ok_envelope_spec(""@))
    } else if m == "getLicense"@ {
        StepView::Reply(ok_envelope_spec("<license valid=\"true\"/>"@))
    } else if m == "getMusicFolders"@ {
        StepView::Reply(ok_envelope_spec(folders_body()))
    } else if playlist_method(m) {
        StepView::Library(true)
    } else if browse_method(m) {
        StepView::Library(false)
    } else {
        StepView::Reply(not_found_spec())
    }
}

/// Authenticates a request and decides what answering it needs.
pub fn begin(url: &str, token: &str) -> (s: Step)
    ensures
        s@ == begin_spec(url@, token@),
{
    let q = parse_query(url);
    if !check_auth(token, &q) {
        return Step::Reply(error_envelope(40, "Wrong username or password"));
    }
    proof {
        reveal_strlit("id");
    }
    assert("id"@ =~= key_id());
    let m = method_of(url);
    if str_eq(m, "stream") || str_eq(m, "download") {
        let id = match q.get("id") {
            Some(id) => parse_track_id(id.as_str()),
            None => None,
        };
        Step::Stream(id)
    } else if str_eq(m, "getCoverArt") {
        Step::Cover(
            match q.get("id") {
                Some(id) => Some(id.clone()),
                None => None,
            },
        )
    } else if str_eq(m, "ping") || str_eq(m, "scrobble") {
        Step::Reply(ok_envelope(""))
    } else if str_eq(m, "getLicense") {
        Step::Reply(ok_envelope("<license valid=\"true\"/>"))
    } else if str_eq(m, "getMusicFolders") {
        let mut v: Vec<char> = Vec::new();
        push_str_chars(&mut v, "<musicFolders><musicFolder id=\"0\" name=\"Melodie\"/></musicFolders>");
        assert(v@ =~= folders_body());
        Step::Reply(envelope(&v))
    } else if str_eq(m, "getPlaylists") || str_eq(m, "getPlaylist") {
        Step::Library(true)
    } else if str_eq(m, "getIndexes") || str_eq(m, "getArtists") || str_eq(m, "getArtist")
        || str_eq(m, "getAlbum") || str_eq(m, "getMusicDirectory") {
        Step::Library(false)
    } else {
        Step::Reply(error_envelope(70, "Requested data was not found"))
    }
}

/// The answer to `url` from the library: the browse family first, then
/// the playlists, else error 70.
pub open spec fn answer_spec(url: Seq<char>, gs: Seq<ArtistGroup>, ps: Seq<PlaylistEntry>) -> Seq<char> {
    let q = parse_query_spec(url);
    let m = method_spec(url);
    match browse_spec(m, q, gs) {
        Some(x) => x,
        None => match playlists_spec(m, q, ps, gs) {
            Some(x) => x,
            None => not_found_spec(),
        },
    }
}

/// The durations that answering `url` adds up fit in an `i64`.
pub open spec fn answer_fits(url: Seq<char>, gs: Seq<ArtistGroup>, ps: Seq<PlaylistEntry>) -> bool {
    let q = parse_query_spec(url);
    let m = method_spec(url);
    browse_fits(m, q, gs) && playlists_fit(m, q, ps, gs)
}

/// Answers a request from the grouped library and the playlists.
pub fn answer(url: &str, gs: &[ArtistGroup], ps: &[PlaylistEntry]) -> (x: String)
    requires
        answer_fits(url@, gs@, ps@),
    ensures
        x@ == answer_spec(url@, gs@, ps@),
{
    let q = parse_query(url);
    let m = method_of(url);
    match handle_browse(m, &q, gs) {
        Some(x) => x,
        None => match handle_playlists(m, &q, ps, gs) {
            Some(x) => x,
            None => error_envelope(70, "Requested data was not found"),
        },
    }
}

fn albums_fit_exec(als: &[Album]) -> (r: bool)
    ensures
        r == albums_fit(als@),
{
    let mut i: usize = 0;
    while i < als.len()
        invariant
            i <= als@.len(),
            forall|k: int| 0 <= k < i ==> sums_fit(#[trigger] als@[k].tracks@),
        decreases als@.len() - i,
    {
        if !durations_fit(als[i].tracks.as_slice()) {
            return false;
        }
        i += 1;
    }
    true
}

fn ids_fit_exec(gs: &[ArtistGroup], ids: &[i64]) -> (r: bool)
    ensures
        r == ids_fit(gs@, ids@),
{
    let mut total: i64 = 0;
    let mut i: usize = 0;
    assert(ids@.take(0) =~= Seq::<i64>::empty());
    while i < ids.len()
        invariant
            i <= ids@.len(),
            total == ids_ms(gs@, ids@.take(i as int)),
            forall|k: int| 0 <= k <= i ==> i64::MIN <= #[trigger] ids_ms(gs@, ids@.take(k)) <= i64::MAX,
        decreases ids@.len() - i,
    {
        assert(ids@.take(i + 1).drop_last() == ids@.take(i as int));
        assert(ids@.take(i + 1).last() == ids@[i as int]);
        match find_track_exec(gs, ids[i]) {
            Some((t, _)) => match total.checked_add(t.duration_ms) {
                Some(x) => {
                    total = x;
                },
                None => {
                    assert(!(i64::MIN <= ids_ms(gs@, ids@.take(i + 1)) <= i64::MAX));
                    return false;
                },
            },
            None => {},
        }
        i += 1;
    }
    assert(ids@.take(ids@.len() as int) == ids@);
    true
}

fn all_playlists_fit(gs: &[ArtistGroup], ps: &[PlaylistEntry]) -> (r: bool)
    ensures
        r == forall|k: int| 0 <= k < ps@.len() ==> ids_fit(gs@, #[trigger] ps@[k].track_ids@),
{
    let mut i: usize = 0;
    while i < ps.len()
        invariant
            i <= ps@.len(),
            forall|k: int| 0 <= k < i ==> ids_fit(gs@, #[trigger] ps@[k].track_ids@),
        decreases ps@.len() - i,
    {
        if !ids_fit_exec(gs, ps[i].track_ids.as_slice()) {
            return false;
        }
        i += 1;
    }
    true
}

/// Whether `answer` can add up the durations `url` asks for without
/// leaving the `i64` range.
pub fn answerable(url: &str, gs: &[ArtistGroup], ps: &[PlaylistEntry]) -> (r: bool)
    ensures
        r == answer_fits(url@, gs@, ps@),
{
    proof {
        reveal_strlit("id");
    }
    assert("id"@ =~= key_id());
    let q = parse_query(url);
    let m = method_of(url);
    let browse = match q.get("id") {
        None => true,
        Some(id) => {
            let a = if str_eq(m, "getArtist") || str_eq(m, "getMusicDirectory") {
                match find_artist_exec(gs, id.as_str()) {
                    Some(g) => albums_fit_exec(g.albums.as_slice()),
                    None => true,
                }
            } else {
                true
            };
            let c = if str_eq(m, "getAlbum") {
                match find_album_exec(gs, id.as_str()) {
                    Some(al) => durations_fit(al.tracks.as_slice()),
                    None => true,
                }
            } else {
                true
            };
            a && c
        },
    };
    let listed = if str_eq(m, "getPlaylists") {
        all_playlists_fit(gs, ps)
    } else {
        true
    };
    let one = if str_eq(m, "getPlaylist") {
        match q.get("id") {
            None => true,
            Some(raw) => match parse_playlist_id(raw.as_str()) {
                None => true,
                Some(id) => match find_playlist_exec(ps, id) {
                    None => true,
                    Some(p) => ids_fit_exec(gs, p.track_ids.as_slice()),
                },
            },
        }
    } else {
        true
    };
    browse && listed && one
}

// ------------------------------------------------------------ streaming

/// Why a stream request could not be served.
pub enum StreamError {
    /// The id is missing, malformed, or names no track.
    NoSuchTrack,
    /// The track's file could not be opened.
    FileNotFound,
    /// The file could not be positioned at the start of the range.
    SeekFailed,
}

pub open spec fn stream_error_spec(e: StreamError) -> Seq<char> {
    match e {
        StreamError::NoSuchTrack => not_found_spec(),
        StreamError::FileNotFound => error_envelope_spec(70, "File not found"@),
        StreamError::SeekFailed => error_envelope_spec(0, "Seek failed"@),
    }
}

/// The Subsonic error document for a stream that cannot be served.
pub fn stream_error_reply(e: StreamError) -> (s: String)
    ensures
        s@ == stream_error_spec(e),
{
    match e {
        StreamError::NoSuchTrack => error_envelope(70, "Requested data was not found"),
        StreamError::FileNotFound => error_envelope(70, "File not found"),
        StreamError::SeekFailed => error_envelope(0, "Seek failed"),
    }
}

/// How to send a track's bytes.
pub struct StreamPlan {
    /// 206 for a satisfied byte range, 200 for the whole file.
    pub status: u16,
    pub content_type: String,
    /// The `Content-Range` value, for a range.
    pub content_range: Option<String>,
    /// Offset of the first byte to send.
    pub start: u64,
    /// Number of bytes to send.
    pub count: u64,
}

/// The range a `Range:` header value asks for in a file of `len` bytes.
pub open spec fn requested_range(range: Option<Seq<char>>, len: u64) -> Option<(u64, u64)> {
    match range {
        Some(h) => parse_range_spec(h, len),
        None => None,
    }
}

/// Plans the response for a file of `len` bytes at `path`, given the value
/// of the request's `Range:` header if it had one: a single satisfiable
/// range gets 206 with `Content-Range`, anything else the whole file.
pub fn plan_stream(path: &str, len: u64, range: Option<&str>) -> (p: StreamPlan)
    ensures
        p.content_type@ == content_type_spec(extension_spec(path@)),
        match requested_range(
            match range {
                Some(h) => Some(h@),
                None => None,
            },
            len,
        ) {
            Some((s, e)) => {
                &&& p.status == 206
                &&& p.start == s
                &&& p.count == e - s + 1
                &&& p.content_range matches Some(cr) && cr@ == content_range_spec(s, e, len)
            },
            None => p.status == 200 && p.start == 0 && p.count == len && p.content_range is None,
        },
{
    let ext = extension_of(path);
    let ct = content_type_for(ext.as_str());
    let content_type = string_from(chars_of(ct).as_slice());
    let r = match range {
        Some(h) => parse_range(h, len),
        None => None,
    };
    match r {
        Some((s, e)) => StreamPlan {
            status: 206,
            content_type,
            content_range: Some(content_range(s, e, len)),
            start: s,
            count: e - s + 1,
        },
        None => StreamPlan { status: 200, content_type, content_range: None, start: 0, count: len },
    }
}

/// With no token configured, every request is answered with error 40,
/// whatever it asks for.
pub proof fn lemma_unset_token_denies_everything(url: Seq<char>)
    ensures
        begin_spec(url, Seq::empty()) == StepView::Reply(denied_spec()),
{
    crate::auth::lemma_empty_token_authenticates_nothing(parse_query_spec(url));
}

/// Without valid credentials nothing but error 40 comes back: no data, no
/// stream.
pub proof fn lemma_failed_auth_gets_only_error_40(url: Seq<char>, token: Seq<char>)
    requires
        !check_auth_spec(token, parse_query_spec(url)),
    ensures
        begin_spec(url, token) == StepView::Reply(denied_spec()),
{
}

/// Every answer from the library is a success envelope or error 70.
pub proof fn lemma_answers_are_envelopes(url: Seq<char>, gs: Seq<ArtistGroup>, ps: Seq<PlaylistEntry>)
    ensures
        (exists|body: Seq<char>| answer_spec(url, gs, ps) == ok_envelope_spec(body)) || answer_spec(
            url,
            gs,
            ps,
        ) == not_found_spec(),
{
    let q = parse_query_spec(url);
    let m = method_spec(url);
    match browse_spec(m, q, gs) {
        Some(x) => {
            let body = if m == "getMusicFolders"@ {
                folders_body()
            } else if m == "getIndexes"@ {
                indexes_body(gs)
            } else if m == "getArtists"@ {
                artists_body(gs)
            } else if m == "getArtist"@ {
                artist_body(find_artist(gs, lookup(q, key_id())->0)->0)
            } else if m == "getAlbum"@ {
                album_body(
                    lookup(q, key_id())->0,
                    find_album(all_albums(gs), lookup(q, key_id())->0)->0,
                )
            } else {
                match find_artist(gs, lookup(q, key_id())->0) {
                    Some(g) => artist_dir_body(g),
                    None => album_dir_body(find_album(all_albums(gs), lookup(q, key_id())->0)->0),
                }
            };
            assert(answer_spec(url, gs, ps) == ok_envelope_spec(body));
        },
        None => match playlists_spec(m, q, ps, gs) {
            Some(x) => {
                let body = if m == "getPlaylists"@ {
                    "<playlists>"@ + playlist_lines(ps, gs) + "</playlists>"@
                } else {
                    playlist_body(
                        find_playlist(
                            ps,
                            parse_prefixed_id(lookup(q, key_id())->0, 'p', 'l')->0,
                        )->0,
                        gs,
                    )
                };
                assert(answer_spec(url, gs, ps) == ok_envelope_spec(body));
            },
            None => {},
        },
    }
}

} // verus!
