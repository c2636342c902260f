//! The browse view of the library: tracks folded into artists and albums,
//! and the XML elements the Subsonic API describes them with.
use vstd::prelude::*;
use crate::http::str_eq;
use crate::ids::{album_id, album_id_spec, artist_id, artist_id_spec, track_id, track_id_spec};
use crate::model::Track;
use crate::numbers::{dec, dec_int, fmt_i64, fmt_u64, tdiv};
use crate::paths::{extension_of, extension_spec};
use crate::strings::{
    ascii_upper, chars_of, eq_ic, eq_ignore_ascii_case, is_ascii_alpha, push_chars,
    push_str_chars, string_from, to_ascii_upper,
};
use crate::xml::{escape_spec, push_escaped};

verus! {

/// One album of one artist, with its tracks in library order.
pub struct Album {
    pub id: String,
    pub name: String,
    pub artist: String,
    pub artist_id: String,
    pub tracks: Vec<Track>,
}

/// One artist with its albums.
pub struct ArtistGroup {
    pub id: String,
    pub name: String,
    pub albums: Vec<Album>,
}

/// Sum of the tracks' durations in milliseconds.
pub open spec fn sum_ms(ts: Seq<Track>) -> int
    decreases ts.len(),
{
    if ts.len() == 0 {
        0
    } else {
        sum_ms(ts.drop_last()) + ts.last().duration_ms
    }
}

/// Every running total of the durations fits in an `i64`.
pub open spec fn sums_fit(ts: Seq<Track>) -> bool {
    forall|k: int| 0 <= k <= ts.len() ==> i64::MIN <= #[trigger] sum_ms(ts.take(k)) <= i64::MAX
}

/// Adds up `duration_ms` over `ts`.
pub fn total_duration_ms(ts: &[Track]) -> (total: i64)
    requires
        sums_fit(ts@),
    ensures
        total == sum_ms(ts@),
{
    let mut total: i64 = 0;
    let mut i: usize = 0;
    assert(ts@.take(0) =~= Seq::<Track>::empty());
    while i < ts.len()
        invariant
            i <= ts@.len(),
            sums_fit(ts@),
            total == sum_ms(ts@.take(i as int)),
        decreases ts@.len() - i,
    {
        assert(ts@.take(i + 1).drop_last() == ts@.take(i as int));
        assert(i64::MIN <= sum_ms(ts@.take(i + 1)) <= i64::MAX);
        total = total + ts[i].duration_ms;
        i += 1;
    }
    assert(ts@.take(ts@.len() as int) == ts@);
    total
}

/// Whether every running total of the tracks' durations fits in an `i64`.
pub fn durations_fit(ts: &[Track]) -> (r: bool)
    ensures
        r == sums_fit(ts@),
{
    let mut total: i64 = 0;
    let mut i: usize = 0;
    assert(ts@.take(0) =~= Seq::<Track>::empty());
    while i < ts.len()
        invariant
            i <= ts@.len(),
            total == sum_ms(ts@.take(i as int)),
            forall|k: int| 0 <= k <= i ==> i64::MIN <= #[trigger] sum_ms(ts@.take(k)) <= i64::MAX,
        decreases ts@.len() - i,
    {
        assert(ts@.take(i + 1).drop_last() == ts@.take(i as int));
        match total.checked_add(ts[i].duration_ms) {
            Some(t) => {
                total = t;
            },
            None => {
                assert(!(i64::MIN <= sum_ms(ts@.take(i + 1)) <= i64::MAX));
                return false;
            },
        }
        i += 1;
    }
    assert(ts@.take(ts@.len() as int) == ts@);
    true
}

impl Album {
    /// Total duration in whole seconds (milliseconds summed first, then divided).
    pub fn duration_secs(&self) -> (secs: i64)
        requires
            sums_fit(self.tracks@),
        ensures
            secs == tdiv(sum_ms(self.tracks@), 1000),
    {
        total_duration_ms(self.tracks.as_slice()) / 1000
    }
}

/// The tracks of consecutive albums, concatenated.
pub open spec fn album_tracks(als: Seq<Album>) -> Seq<Track>
    decreases als.len(),
{
    if als.len() == 0 {
        Seq::empty()
    } else {
        album_tracks(als.drop_last()) + als.last().tracks@
    }
}

/// The tracks of consecutive artist groups, concatenated.
pub open spec fn group_tracks(gs: Seq<ArtistGroup>) -> Seq<Track>
    decreases gs.len(),
{
    if gs.len() == 0 {
        Seq::empty()
    } else {
        group_tracks(gs.drop_last()) + album_tracks(gs.last().albums@)
    }
}

/// An album is named after its first track and holds only tracks whose
/// album tag matches that name up to ASCII case.
pub open spec fn album_ok(a: Album, group_id: Seq<char>) -> bool {
    &&& a.tracks@.len() > 0
    &&& a.name@ == a.tracks@[0].album@
    &&& a.artist@ == a.tracks@[0].artist@
    &&& a.id@ == album_id_spec(a.tracks@[0].artist@, a.tracks@[0].album@)
    &&& a.artist_id@ == group_id
    &&& forall|j: int| 0 <= j < a.tracks@.len() ==> eq_ic(#[trigger] a.tracks@[j].album@, a.name@)
}

/// An artist group is named after its first track, holds only tracks whose
/// artist tag matches that name up to ASCII case, and no two neighbouring
/// albums in it share a name up to ASCII case.
pub open spec fn group_ok(g: ArtistGroup) -> bool {
    &&& g.albums@.len() > 0
    &&& g.albums@[0].tracks@.len() > 0
    &&& g.name@ == g.albums@[0].tracks@[0].artist@
    &&& g.id@ == artist_id_spec(g.name@)
    &&& forall|k: int| 0 <= k < g.albums@.len() ==> album_ok(#[trigger] g.albums@[k], g.id@)
    &&& forall|k: int, j: int|
        0 <= k < g.albums@.len() && 0 <= j < g.albums@[k].tracks@.len() ==> eq_ic(
            #[trigger] g.albums@[k].tracks@[j].artist@,
            g.name@,
        )
    &&& forall|k: int|
        0 < k < g.albums@.len() ==> !eq_ic(g.albums@[k - 1].name@, #[trigger] g.albums@[k].name@)
}

/// Every group is well formed and no two neighbouring groups share a name
/// up to ASCII case.
pub open spec fn groups_ok(gs: Seq<ArtistGroup>) -> bool {
    &&& forall|i: int| 0 <= i < gs.len() ==> group_ok(#[trigger] gs[i])
    &&& forall|i: int| 0 < i < gs.len() ==> !eq_ic(gs[i - 1].name@, #[trigger] gs[i].name@)
}

fn names_match(a: &String, b: &String) -> (r: bool)
    ensures
        r == eq_ic(a@, b@),
{
    let x = chars_of(a.as_str());
    let y = chars_of(b.as_str());
    eq_ignore_ascii_case(x.as_slice(), y.as_slice())
}

fn new_album(t: Track, group_id: String) -> (a: Album)
    ensures
        album_ok(a, group_id@),
        a.tracks@ == seq![t],
{
    let id = album_id(t.artist.as_str(), t.album.as_str());
    let name = t.album.clone();
    let artist = t.artist.clone();
    let mut tracks: Vec<Track> = Vec::new();
    proof {
        lemma_eq_ic_refl(t.album@);
    }
    tracks.push(t);
    Album { id, name, artist, artist_id: group_id, tracks }
}

proof fn lemma_eq_ic_refl(s: Seq<char>)
    ensures
        eq_ic(s, s),
{
}

proof fn lemma_eq_ic_trans(a: Seq<char>, b: Seq<char>, c: Seq<char>)
    requires
        eq_ic(a, b),
        eq_ic(b, c),
    ensures
        eq_ic(a, c),
{
}

proof fn lemma_eq_ic_sym(a: Seq<char>, b: Seq<char>)
    requires
        eq_ic(a, b),
    ensures
        eq_ic(b, a),
{
}

proof fn lemma_album_tracks_push(s: Seq<Album>, a: Album)
    ensures
        album_tracks(s.push(a)) == album_tracks(s) + a.tracks@,
{
    assert(s.push(a).drop_last() =~= s);
}

proof fn lemma_group_tracks_push(s: Seq<ArtistGroup>, g: ArtistGroup)
    ensures
        group_tracks(s.push(g)) == group_tracks(s) + album_tracks(g.albums@),
{
    assert(s.push(g).drop_last() =~= s);
}

/// Adds `t` to group `g`, whose name matches `t`'s artist: into its last
/// album when the album name matches, else as a new album.
fn add_to_group(g: &mut ArtistGroup, t: Track)
    requires
        group_ok(*old(g)),
        eq_ic(t.artist@, old(g).name@),
    ensures
        group_ok(*final(g)),
        final(g).name == old(g).name,
        album_tracks(final(g).albums@) == album_tracks(old(g).albums@).push(t),
{
    let ghost old_albums = g.albums@;
    let last_album = g.albums.len() - 1;
    let start_album = !names_match(&g.albums[last_album].name, &t.album);
    proof {
        lemma_eq_ic_sym(t.artist@, g.name@);
    }
    if start_album {
        let album = new_album(t, g.id.clone());
        g.albums.push(album);
        proof {
            lemma_album_tracks_push(old_albums, album);
            assert(g.albums@ == old_albums.push(album));
            assert(album_tracks(g.albums@) =~= album_tracks(old_albums).push(t));
            assert(g.albums@[0] == old_albums[0]);
            assert forall|k: int| 0 <= k < g.albums@.len() implies album_ok(
                #[trigger] g.albums@[k],
                g.id@,
            ) by {
                if k < old_albums.len() {
                    assert(g.albums@[k] == old_albums[k]);
                }
            }
            assert forall|k: int, j: int|
                0 <= k < g.albums@.len() && 0 <= j < g.albums@[k].tracks@.len() implies eq_ic(
                #[trigger] g.albums@[k].tracks@[j].artist@,
                g.name@,
            ) by {
                if k < old_albums.len() {
                    assert(g.albums@[k] == old_albums[k]);
                }
            }
            assert forall|k: int| 0 < k < g.albums@.len() implies !eq_ic(
                g.albums@[k - 1].name@,
                #[trigger] g.albums@[k].name@,
            ) by {
                if k < old_albums.len() {
                    assert(g.albums@[k] == old_albums[k]);
                    assert(g.albums@[k - 1] == old_albums[k - 1]);
                }
            }
        }
    } else {
        let mut al = g.albums.pop().unwrap();
        let ghost old_al = al;
        assert(al == old_albums.last());
        assert(album_ok(al, g.id@));
        proof {
            lemma_eq_ic_sym(al.name@, t.album@);
        }
        al.tracks.push(t);
        proof {
            assert(al.tracks@[0] == old_al.tracks@[0]);
            assert forall|j: int| 0 <= j < al.tracks@.len() implies eq_ic(
                #[trigger] al.tracks@[j].album@,
                al.name@,
            ) by {
                if j < old_al.tracks@.len() {
                    assert(al.tracks@[j] == old_al.tracks@[j]);
                }
            }
        }
        g.albums.push(al);
        proof {
            assert(g.albums@ == old_albums.drop_last().push(al));
            lemma_album_tracks_push(old_albums.drop_last(), al);
            lemma_album_tracks_push(old_albums.drop_last(), old_al);
            assert(old_albums.drop_last().push(old_al) == old_albums);
            assert(album_tracks(g.albums@) =~= album_tracks(old_albums).push(t));
            if old_albums.len() > 1 {
                assert(g.albums@[0] == old_albums[0]);
            }
            assert forall|k: int| 0 <= k < g.albums@.len() implies album_ok(
                #[trigger] g.albums@[k],
                g.id@,
            ) by {
                if k < old_albums.len() - 1 {
                    assert(g.albums@[k] == old_albums[k]);
                }
            }
            assert forall|k: int, j: int|
                0 <= k < g.albums@.len() && 0 <= j < g.albums@[k].tracks@.len() implies eq_ic(
                #[trigger] g.albums@[k].tracks@[j].artist@,
                g.name@,
            ) by {
                if k < old_albums.len() - 1 {
                    assert(g.albums@[k] == old_albums[k]);
                } else if j < old_al.tracks@.len() {
                    assert(g.albums@[k].tracks@[j] == old_al.tracks@[j]);
                    assert(old_albums[k] == old_al);
                }
            }
            assert forall|k: int| 0 < k < g.albums@.len() implies !eq_ic(
                g.albums@[k - 1].name@,
                #[trigger] g.albums@[k].name@,
            ) by {
                assert(g.albums@[k].name@ == old_albums[k].name@);
                assert(g.albums@[k - 1].name@ == old_albums[k - 1].name@);
            }
        }
    }
}

/// Adds `t` after the tracks already grouped.
fn add_track(groups: &mut Vec<ArtistGroup>, t: Track)
    requires
        groups_ok(old(groups)@),
    ensures
        groups_ok(final(groups)@),
        group_tracks(final(groups)@) == group_tracks(old(groups)@).push(t),
{
    let ghost old_groups = groups@;
    let start_group = if groups.len() == 0 {
        true
    } else {
        !names_match(&groups[groups.len() - 1].name, &t.artist)
    };
    if start_group {
        let gid = artist_id(t.artist.as_str());
        let name = t.artist.clone();
        let album = new_album(t, gid.clone());
        let mut albums: Vec<Album> = Vec::new();
        albums.push(album);
        let g = ArtistGroup { id: gid, name, albums };
        proof {
            lemma_eq_ic_refl(t.artist@);
            lemma_album_tracks_push(Seq::empty(), album);
            assert(albums@ == Seq::<Album>::empty().push(album));
            assert(album_tracks(g.albums@) =~= seq![t]);
            assert forall|k: int, j: int|
                0 <= k < g.albums@.len() && 0 <= j < g.albums@[k].tracks@.len() implies eq_ic(
                #[trigger] g.albums@[k].tracks@[j].artist@,
                g.name@,
            ) by {
                assert(g.albums@[k] == album);
            }
            assert(group_ok(g));
        }
        groups.push(g);
        proof {
            lemma_group_tracks_push(old_groups, g);
            assert(group_tracks(groups@) =~= group_tracks(old_groups).push(t));
            assert forall|k: int| 0 <= k < groups@.len() implies group_ok(#[trigger] groups@[k]) by {
                if k < old_groups.len() {
                    assert(groups@[k] == old_groups[k]);
                }
            }
            assert forall|k: int| 0 < k < groups@.len() implies !eq_ic(
                groups@[k - 1].name@,
                #[trigger] groups@[k].name@,
            ) by {
                if k < old_groups.len() {
                    assert(groups@[k] == old_groups[k]);
                }
                assert(groups@[k - 1] == old_groups[k - 1]);
            }
        }
    } else {
        let mut g = groups.pop().unwrap();
        assert(g == old_groups.last());
        assert(group_ok(g));
        let ghost old_g = g;
        add_to_group(&mut g, t);
        groups.push(g);
        proof {
            assert(groups@ == old_groups.drop_last().push(g));
            lemma_group_tracks_push(old_groups.drop_last(), g);
            lemma_group_tracks_push(old_groups.drop_last(), old_g);
            assert(old_groups.drop_last().push(old_g) == old_groups);
            assert(group_tracks(groups@) =~= group_tracks(old_groups).push(t));
            assert forall|k: int| 0 <= k < groups@.len() implies group_ok(#[trigger] groups@[k]) by {
                if k < old_groups.len() - 1 {
                    assert(groups@[k] == old_groups[k]);
                }
            }
            assert forall|k: int| 0 < k < groups@.len() implies !eq_ic(
                groups@[k - 1].name@,
                #[trigger] groups@[k].name@,
            ) by {
                assert(groups@[k].name@ == old_groups[k].name@);
                assert(groups@[k - 1].name@ == old_groups[k - 1].name@);
            }
        }
    }
}

/// Folds tracks (already ordered by artist, then album) into artists and
/// albums: a new artist starts whenever a track's artist differs, ignoring
/// ASCII case, from the current artist's name, and likewise for albums
/// within an artist.
pub fn group_library(tracks: Vec<Track>) -> (groups: Vec<ArtistGroup>)
    ensures
        group_tracks(groups@) == tracks@,
        groups_ok(groups@),
{
    let n = tracks.len();
    let ghost all = tracks@;
    let mut src = tracks;
    let mut pending: Vec<Track> = Vec::new();
    while src.len() > 0
        invariant
            n == all.len(),
            src@.len() + pending@.len() == n,
            forall|j: int| 0 <= j < src@.len() ==> src@[j] == all[j],
            forall|j: int| 0 <= j < pending@.len() ==> #[trigger] pending@[j] == all[n - 1 - j],
        decreases src@.len(),
    {
        let t = src.pop().unwrap();
        pending.push(t);
    }
    let mut groups: Vec<ArtistGroup> = Vec::new();
    assert(all.take(0) =~= Seq::<Track>::empty());
    while pending.len() > 0
        invariant
            n == all.len(),
            pending@.len() <= n,
            forall|j: int| 0 <= j < pending@.len() ==> #[trigger] pending@[j] == all[n - 1 - j],
            group_tracks(groups@) == all.take(n - pending@.len()),
            groups_ok(groups@),
        decreases pending@.len(),
    {
        let ghost i = n - pending@.len();
        let t = pending.pop().unwrap();
        assert(t == all[i]);
        assert(all.take(i + 1) == all.take(i).push(t));
        add_track(&mut groups, t);
    }
    assert(all.take(n as int) == all);
    groups
}

/// The MIME type announced for a lowercase file extension.
pub open spec fn content_type_spec(ext: Seq<char>) -> Seq<char> {
    if ext == "mp3"@ {
        "audio/mpeg"@
    } else if ext == "flac"@ {
        "audio/flac"@
    } else if ext == "aac"@ {
        "audio/aac"@
    } else if ext == "m4a"@ || ext == "mp4"@ || ext == "m4b"@ {
        "audio/mp4"@
    } else if ext == "ogg"@ || ext == "oga"@ {
        "audio/ogg"@
    } else if ext == "wav"@ {
        "audio/wav"@
    } else {
        "application/octet-stream"@
    }
}

/// The MIME type served for each audio format: mp3 as audio/mpeg, flac as
/// audio/flac, aac as audio/aac, the MP4 family as audio/mp4, Ogg as
/// audio/ogg, wav as audio/wav, and anything else as a plain byte stream.
pub proof fn lemma_content_types(ext: Seq<char>)
    ensures
        ext == "mp3"@ ==> content_type_spec(ext) == "audio/mpeg"@,
        ext == "flac"@ ==> content_type_spec(ext) == "audio/flac"@,
        ext == "aac"@ ==> content_type_spec(ext) == "audio/aac"@,
        ext == "m4a"@ ==> content_type_spec(ext) == "audio/mp4"@,
        ext == "mp4"@ ==> content_type_spec(ext) == "audio/mp4"@,
        ext == "m4b"@ ==> content_type_spec(ext) == "audio/mp4"@,
        ext == "ogg"@ ==> content_type_spec(ext) == "audio/ogg"@,
        ext == "oga"@ ==> content_type_spec(ext) == "audio/ogg"@,
        ext == "wav"@ ==> content_type_spec(ext) == "audio/wav"@,
        ext != "mp3"@ && ext != "flac"@ && ext != "aac"@ && ext != "m4a"@ && ext != "mp4"@ && ext
            != "m4b"@ && ext != "ogg"@ && ext != "oga"@ && ext != "wav"@ ==> content_type_spec(ext)
            == "application/octet-stream"@,
{
    reveal_strlit("mp3");
    reveal_strlit("flac");
    reveal_strlit("aac");
    reveal_strlit("m4a");
    reveal_strlit("mp4");
    reveal_strlit("m4b");
    reveal_strlit("ogg");
    reveal_strlit("oga");
    reveal_strlit("wav");
    if ext == "mp3"@ {
        assert(ext.len() == 3 && ext[0] == 'm' && ext[1] == 'p' && ext[2] == '3');
    }
    if ext == "flac"@ {
        assert(ext.len() == 4 && ext[0] == 'f' && ext[1] == 'l' && ext[2] == 'a' && ext[3] == 'c');
    }
    if ext == "aac"@ {
        assert(ext.len() == 3 && ext[0] == 'a' && ext[1] == 'a' && ext[2] == 'c');
    }
    if ext == "m4a"@ {
        assert(ext.len() == 3 && ext[0] == 'm' && ext[1] == '4' && ext[2] == 'a');
    }
    if ext == "mp4"@ {
        assert(ext.len() == 3 && ext[0] == 'm' && ext[1] == 'p' && ext[2] == '4');
    }
    if ext == "m4b"@ {
        assert(ext.len() == 3 && ext[0] == 'm' && ext[1] == '4' && ext[2] == 'b');
    }
    if ext == "ogg"@ {
        assert(ext.len() == 3 && ext[0] == 'o' && ext[1] == 'g' && ext[2] == 'g');
    }
    if ext == "oga"@ {
        assert(ext.len() == 3 && ext[0] == 'o' && ext[1] == 'g' && ext[2] == 'a');
    }
    if ext == "wav"@ {
        assert(ext.len() == 3 && ext[0] == 'w' && ext[1] == 'a' && ext[2] == 'v');
    }
}

pub fn content_type_for(ext: &str) -> (ct: &'static str)
    ensures
        ct@ == content_type_spec(ext@),
{
    if str_eq(ext, "mp3") {
        "audio/mpeg"
    } else if str_eq(ext, "flac") {
        "audio/flac"
    } else if str_eq(ext, "aac") {
        "audio/aac"
    } else if str_eq(ext, "m4a") || str_eq(ext, "mp4") || str_eq(ext, "m4b") {
        "audio/mp4"
    } else if str_eq(ext, "ogg") || str_eq(ext, "oga") {
        "audio/ogg"
    } else if str_eq(ext, "wav") {
        "audio/wav"
    } else {
        "application/octet-stream"
    }
}

/// ` track="N"` when the track number is known.
pub open spec fn track_attr_spec(n: Option<i64>) -> Seq<char> {
    match n {
        Some(n) => " track=\""@ + dec_int(n as int) + "\""@,
        None => Seq::empty(),
    }
}

/// The `<song>` element for track `t` of `album`.
pub open spec fn song_xml_spec(t: Track, album: Album) -> Seq<char> {
    let ext = extension_spec(t.path@);
    "<song id=\""@ + track_id_spec(t.id) + "\" parent=\""@ + album.id@
        + "\" isDir=\"false\" title=\""@ + escape_spec(t.title@) + "\" album=\""@
        + escape_spec(t.album@) + "\" artist=\""@ + escape_spec(t.artist@) + "\""@
        + track_attr_spec(t.track_no) + " duration=\""@ + dec_int(tdiv(t.duration_ms as int, 1000))
        + "\" size=\""@ + dec_int(t.size as int) + "\" suffix=\""@ + escape_spec(ext)
        + "\" contentType=\""@ + content_type_spec(ext) + "\" albumId=\""@ + album.id@
        + "\" artistId=\""@ + album.artist_id@ + "\" coverArt=\""@ + track_id_spec(t.id)
        + "\" type=\"music\"/>"@
}

fn push_string(v: &mut Vec<char>, s: &String)
    ensures
        final(v)@ == old(v)@ + s@,
{
    push_str_chars(v, s.as_str());
}

fn push_escaped_str(v: &mut Vec<char>, s: &str)
    ensures
        final(v)@ == old(v)@ + escape_spec(s@),
{
    let cs = chars_of(s);
    push_escaped(v, cs.as_slice());
}

fn push_i64(v: &mut Vec<char>, n: i64)
    ensures
        final(v)@ == old(v)@ + dec_int(n as int),
{
    let d = fmt_i64(n);
    push_chars(v, d.as_slice());
}

/// The `<song>` element shared by getAlbum, getPlaylist and
/// getMusicDirectory.
pub fn song_xml(t: &Track, album: &Album) -> (xml: String)
    ensures
        xml@ == song_xml_spec(*t, *album),
{
    let ext = extension_of(t.path.as_str());
    let ghost e = extension_spec(t.path@);
    let tid = track_id(t.id);
    let mut v: Vec<char> = Vec::new();
    push_str_chars(&mut v, "<song id=\"");
    push_string(&mut v, &tid);
    push_str_chars(&mut v, "\" parent=\"");
    push_string(&mut v, &album.id);
    push_str_chars(&mut v, "\" isDir=\"false\" title=\"");
    push_escaped_str(&mut v, t.title.as_str());
    push_str_chars(&mut v, "\" album=\"");
    push_escaped_str(&mut v, t.album.as_str());
    push_str_chars(&mut v, "\" artist=\"");
    push_escaped_str(&mut v, t.artist.as_str());
    push_str_chars(&mut v, "\"");
    match t.track_no {
        Some(n) => {
            push_str_chars(&mut v, " track=\"");
            push_i64(&mut v, n);
            push_str_chars(&mut v, "\"");
        },
        None => {},
    }
    push_str_chars(&mut v, " duration=\"");
    push_i64(&mut v, t.duration_ms / 1000);
    push_str_chars(&mut v, "\" size=\"");
    push_i64(&mut v, t.size);
    push_str_chars(&mut v, "\" suffix=\"");
    push_escaped_str(&mut v, ext.as_str());
    push_str_chars(&mut v, "\" contentType=\"");
    let ct = content_type_for(ext.as_str());
    push_str_chars(&mut v, ct);
    push_str_chars(&mut v, "\" albumId=\"");
    push_string(&mut v, &album.id);
    push_str_chars(&mut v, "\" artistId=\"");
    push_string(&mut v, &album.artist_id);
    push_str_chars(&mut v, "\" coverArt=\"");
    push_string(&mut v, &tid);
    push_str_chars(&mut v, "\" type=\"music\"/>");
    assert(v@ =~= song_xml_spec(*t, *album));
    string_from(v.as_slice())
}

/// The bucket a name sorts under: its first character upper-cased when it
/// is an ASCII letter, otherwise `#`.
pub open spec fn index_letter_spec(name: Seq<char>) -> Seq<char> {
    if name.len() > 0 && is_ascii_alpha(name[0]) {
        seq![ascii_upper(name[0])]
    } else {
        seq!['#']
    }
}

/// An artist whose name starts with an ASCII letter, in either case, is
/// listed under that letter in upper case; any other name (empty, or
/// starting with a digit, a symbol or a non-ASCII character) under `#`.
pub proof fn lemma_index_letter_buckets(name: Seq<char>)
    ensures
        name.len() > 0 && 'A' <= name[0] <= 'Z' ==> index_letter_spec(name) == seq![name[0]],
        name.len() > 0 && 'a' <= name[0] <= 'z' ==> ({
            let l = index_letter_spec(name);
            &&& l.len() == 1
            &&& 'A' <= l[0] <= 'Z'
            &&& (l[0] as u32) + 32 == name[0] as u32
        }),
        !(name.len() > 0 && ('A' <= name[0] <= 'Z' || 'a' <= name[0] <= 'z')) ==> index_letter_spec(
            name,
        ) == seq!['#'],
{
    if name.len() > 0 && 'a' <= name[0] <= 'z' {
        let c = name[0];
        let u = ((c as u32) - 32) as char;
        assert((u as u32) + 32 == c as u32);
    }
}

pub fn index_letter(name: &str) -> (l: String)
    ensures
        l@ == index_letter_spec(name@),
{
    let cs = chars_of(name);
    let mut v: Vec<char> = Vec::new();
    if cs.len() > 0 && (('A' <= cs[0] && cs[0] <= 'Z') || ('a' <= cs[0] && cs[0] <= 'z')) {
        v.push(to_ascii_upper(cs[0]));
    } else {
        v.push('#');
    }
    assert(v@ =~= index_letter_spec(name@));
    string_from(v.as_slice())
}

/// ` albumCount="N"` when asked for.
pub open spec fn album_count_spec(g: ArtistGroup, with_album_count: bool) -> Seq<char> {
    if with_album_count {
        " albumCount=\""@ + dec(g.albums@.len()) + "\""@
    } else {
        Seq::empty()
    }
}

pub open spec fn artist_element_spec(g: ArtistGroup, with_album_count: bool) -> Seq<char> {
    "<artist id=\""@ + g.id@ + "\" name=\""@ + escape_spec(g.name@) + "\""@ + album_count_spec(
        g,
        with_album_count,
    ) + "/>"@
}

/// What starts a new letter bucket: closing the open one, if any, and
/// opening `<index name="L">`; nothing when the letter stays the same.
pub open spec fn index_open(l: Seq<char>, current: Seq<char>) -> Seq<char> {
    if l != current {
        (if current.len() > 0 {
            "</index>"@
        } else {
            Seq::<char>::empty()
        }) + "<index name=\""@ + escape_spec(l) + "\">"@
    } else {
        Seq::empty()
    }
}

/// The `<index>` listing of `gs`, given the letter of the index element
/// still open (empty before the first).
pub open spec fn indexes_from(gs: Seq<ArtistGroup>, current: Seq<char>, wc: bool) -> Seq<char>
    decreases gs.len(),
{
    if gs.len() == 0 {
        if current.len() > 0 {
            "</index>"@
        } else {
            Seq::empty()
        }
    } else {
        let l = index_letter_spec(gs[0].name@);
        index_open(l, current) + artist_element_spec(gs[0], wc) + indexes_from(gs.skip(1), l, wc)
    }
}

/// Artists bucketed by first letter, as getIndexes/getArtists list them.
pub open spec fn indexes_spec(gs: Seq<ArtistGroup>, wc: bool) -> Seq<char> {
    indexes_from(gs, Seq::empty(), wc)
}

/// Appends the element of one artist to `out`, opening a new letter bucket
/// when its letter differs from `current`; returns its letter.
fn push_artist_entry(out: &mut Vec<char>, current: &Vec<char>, g: &ArtistGroup, wc: bool) -> (letter:
    Vec<char>)
    ensures
        letter@ == index_letter_spec(g.name@),
        final(out)@ == old(out)@ + index_open(letter@, current@) + artist_element_spec(*g, wc),
{
    let ghost before = out@;
    let l = index_letter(g.name.as_str());
    let lc = chars_of(l.as_str());
    if !crate::http::chars_eq(lc.as_slice(), current.as_slice()) {
        if current.len() > 0 {
            push_str_chars(out, "</index>");
        }
        push_str_chars(out, "<index name=\"");
        push_escaped(out, lc.as_slice());
        push_str_chars(out, "\">");
    }
    push_str_chars(out, "<artist id=\"");
    push_string(out, &g.id);
    push_str_chars(out, "\" name=\"");
    push_escaped_str(out, g.name.as_str());
    push_str_chars(out, "\"");
    if wc {
        push_str_chars(out, " albumCount=\"");
        let d = fmt_u64(g.albums.len() as u64);
        push_chars(out, d.as_slice());
        push_str_chars(out, "\"");
    }
    push_str_chars(out, "/>");
    assert(out@ =~= before + index_open(lc@, current@) + artist_element_spec(*g, wc));
    lc
}

pub fn indexes_xml(groups: &[ArtistGroup], with_album_count: bool) -> (xml: String)
    ensures
        xml@ == indexes_spec(groups@, with_album_count),
{
    let mut out: Vec<char> = Vec::new();
    let mut current: Vec<char> = Vec::new();
    let mut i: usize = 0;
    assert(groups@.skip(0) == groups@);
    while i < groups.len()
        invariant
            i <= groups@.len(),
            out@ + indexes_from(groups@.skip(i as int), current@, with_album_count) == indexes_spec(
                groups@,
                with_album_count,
            ),
        decreases groups@.len() - i,
    {
        let ghost rest = groups@.skip(i as int);
        assert(rest[0] == groups@[i as int]);
        assert(rest.skip(1) == groups@.skip(i + 1));
        let ghost before = out@;
        let lc = push_artist_entry(&mut out, &current, &groups[i], with_album_count);
        assert(before + indexes_from(rest, current@, with_album_count) =~= out@ + indexes_from(
            rest.skip(1),
            lc@,
            with_album_count,
        ));
        current = lc;
        i += 1;
    }
    let ghost before = out@;
    assert(groups@.skip(i as int).len() == 0);
    if current.len() > 0 {
        push_str_chars(&mut out, "</index>");
    }
    assert(out@ =~= before + indexes_from(groups@.skip(i as int), current@, with_album_count));
    string_from(out.as_slice())
}

/// The element describing an album, as `<album>` (getArtist) or `<child>`
/// (getMusicDirectory).
pub open spec fn album_element_spec(album: Album, tag: Seq<char>) -> Seq<char> {
    "<"@ + tag + " id=\""@ + album.id@ + "\" name=\""@ + escape_spec(album.name@) + "\" title=\""@
        + escape_spec(album.name@) + "\" artist=\""@ + escape_spec(album.artist@)
        + "\" artistId=\""@ + album.artist_id@ + "\" parent=\""@ + album.artist_id@
        + "\" isDir=\"true\" songCount=\""@ + dec(album.tracks@.len()) + "\" duration=\""@
        + dec_int(tdiv(sum_ms(album.tracks@), 1000)) + "\" coverArt=\""@ + album.id@ + "\"/>"@
}

pub fn album_element(album: &Album, tag: &str) -> (xml: String)
    requires
        sums_fit(album.tracks@),
    ensures
        xml@ == album_element_spec(*album, tag@),
{
    let mut v: Vec<char> = Vec::new();
    push_str_chars(&mut v, "<");
    push_str_chars(&mut v, tag);
    push_str_chars(&mut v, " id=\"");
    push_string(&mut v, &album.id);
    push_str_chars(&mut v, "\" name=\"");
    push_escaped_str(&mut v, album.name.as_str());
    push_str_chars(&mut v, "\" title=\"");
    push_escaped_str(&mut v, album.name.as_str());
    push_str_chars(&mut v, "\" artist=\"");
    push_escaped_str(&mut v, album.artist.as_str());
    push_str_chars(&mut v, "\" artistId=\"");
    push_string(&mut v, &album.artist_id);
    push_str_chars(&mut v, "\" parent=\"");
    push_string(&mut v, &album.artist_id);
    push_str_chars(&mut v, "\" isDir=\"true\" songCount=\"");
    let n = fmt_u64(album.tracks.len() as u64);
    push_chars(&mut v, n.as_slice());
    push_str_chars(&mut v, "\" duration=\"");
    push_i64(&mut v, album.duration_secs());
    push_str_chars(&mut v, "\" coverArt=\"");
    push_string(&mut v, &album.id);
    push_str_chars(&mut v, "\"/>");
    assert(v@ =~= album_element_spec(*album, tag@));
    string_from(v.as_slice())
}

} // verus!
