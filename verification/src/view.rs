//! What the main window shows of the library: a row per track, the
//! playlist picker's selection, the tracks of a playlist, the sync button's
//! caption, and the queue entries handed to the player.
use vstd::prelude::*;
use crate::model::Track;
use crate::numbers::{dec_int, fmt_i64, tdiv, trem};
use crate::player::QueueTrack;
use crate::strings::{push_chars, push_str_chars, string_from};
use crate::http::str_eq;

verus! {

/// `n` with at least two digits (`{:02}`): a leading zero for 0 to 9.
pub open spec fn pad2(n: int) -> Seq<char> {
    if 0 <= n < 10 {
        seq!['0'] + dec_int(n)
    } else {
        dec_int(n)
    }
}

/// `m:ss` for a duration in milliseconds, whole seconds truncated.
pub open spec fn duration_label_spec(duration_ms: i64) -> Seq<char> {
    let secs = tdiv(duration_ms as int, 1000);
    dec_int(tdiv(secs, 60)) + seq![':'] + pad2(trem(secs, 60))
}

fn push_pad2(v: &mut Vec<char>, n: i64)
    ensures
        final(v)@ == old(v)@ + pad2(n as int),
{
    if 0 <= n && n < 10 {
        v.push('0');
    }
    let d = fmt_i64(n);
    push_chars(v, d.as_slice());
    assert(final(v)@ =~= old(v)@ + pad2(n as int));
}

/// The duration column of a track row.
pub fn duration_label(duration_ms: i64) -> (s: String)
    ensures
        s@ == duration_label_spec(duration_ms),
{
    let secs = duration_ms / 1000;
    let mut v: Vec<char> = Vec::new();
    let m = fmt_i64(secs / 60);
    push_chars(&mut v, m.as_slice());
    v.push(':');
    push_pad2(&mut v, secs % 60);
    assert(v@ =~= duration_label_spec(duration_ms));
    string_from(v.as_slice())
}

/// One line of the track list.
#[derive(Clone, Debug, Default)]
pub struct Row {
    pub col1: String,
    pub col2: String,
    pub col3: String,
    pub duration_label: String,
}

/// A track as a list row: title, artist, album, duration.
pub fn to_row(t: &Track) -> (r: Row)
    ensures
        r.col1@ == t.title@,
        r.col2@ == t.artist@,
        r.col3@ == t.album@,
        r.duration_label@ == duration_label_spec(t.duration_ms),
{
    Row {
        col1: t.title.clone(),
        col2: t.artist.clone(),
        col3: t.album.clone(),
        duration_label: duration_label(t.duration_ms),
    }
}

/// A track as a queue entry for the player.
pub fn to_queue_track(t: &Track) -> (q: QueueTrack)
    ensures
        q.track_id == t.id,
        q.path@ == t.path@,
        q.title@ == t.title@,
        q.artist@ == t.artist@,
        q.album@ == t.album@,
        q.duration_ms == t.duration_ms,
{
    QueueTrack {
        track_id: t.id,
        path: t.path.clone(),
        title: t.title.clone(),
        artist: t.artist.clone(),
        album: t.album.clone(),
        duration_ms: t.duration_ms,
    }
}

/// The line `--rescan` prints for a track: `  artist - album - title (m:ss)`.
pub open spec fn track_line_spec(t: Track) -> Seq<char> {
    "  "@ + t.artist@ + " - "@ + t.album@ + " - "@ + t.title@ + " ("@ + dec_int(
        tdiv(t.duration_ms as int, 60000),
    ) + seq![':'] + pad2(trem(tdiv(t.duration_ms as int, 1000), 60)) + ")"@
}

pub fn track_line(t: &Track) -> (s: String)
    ensures
        s@ == track_line_spec(*t),
{
    let mut v: Vec<char> = Vec::new();
    push_str_chars(&mut v, "  ");
    push_str_chars(&mut v, t.artist.as_str());
    push_str_chars(&mut v, " - ");
    push_str_chars(&mut v, t.album.as_str());
    push_str_chars(&mut v, " - ");
    push_str_chars(&mut v, t.title.as_str());
    push_str_chars(&mut v, " (");
    let m = fmt_i64(t.duration_ms / 60_000);
    push_chars(&mut v, m.as_slice());
    v.push(':');
    push_pad2(&mut v, (t.duration_ms / 1000) % 60);
    push_str_chars(&mut v, ")");
    assert(v@ =~= track_line_spec(*t));
    string_from(v.as_slice())
}

/// The sync button's caption: `Sync`, or `Sync (n)` while `n` jobs are
/// pending or running (`None` when the count could not be read).
pub open spec fn sync_label_spec(jobs: Option<i64>) -> Seq<char> {
    match jobs {
        Some(n) => if n == 0 {
            "Sync"@
        } else {
            "Sync ("@ + dec_int(n as int) + ")"@
        },
        None => "Sync"@,
    }
}

pub fn sync_label(jobs: Option<i64>) -> (s: String)
    ensures
        s@ == sync_label_spec(jobs),
{
    match jobs {
        Some(n) => if n == 0 {
            String::from_str("Sync")
        } else {
            let mut v: Vec<char> = Vec::new();
            push_str_chars(&mut v, "Sync (");
            let d = fmt_i64(n);
            push_chars(&mut v, d.as_slice());
            push_str_chars(&mut v, ")");
            string_from(v.as_slice())
        },
        None => String::from_str("Sync"),
    }
}

/// The last library track with database id `id` (a lookup table built
/// from the library keeps the last entry per id).
pub open spec fn last_with_id(library: Seq<Track>, id: i64) -> Option<Track>
    decreases library.len(),
{
    if library.len() == 0 {
        None
    } else if library.last().id == id {
        Some(library.last())
    } else {
        last_with_id(library.drop_last(), id)
    }
}

/// The tracks a playlist lists, in playlist order, leaving out ids the
/// library does not have.
pub open spec fn playlist_tracks_spec(library: Seq<Track>, ids: Seq<i64>) -> Seq<Track>
    decreases ids.len(),
{
    if ids.len() == 0 {
        Seq::empty()
    } else {
        playlist_tracks_spec(library, ids.drop_last()) + match last_with_id(library, ids.last()) {
            Some(t) => seq![t],
            None => Seq::empty(),
        }
    }
}

fn copy_track(t: &Track) -> (r: Track)
    ensures
        r == *t,
{
    Track {
        id: t.id,
        path: t.path.clone(),
        title: t.title.clone(),
        artist: t.artist.clone(),
        album: t.album.clone(),
        track_no: t.track_no,
        duration_ms: t.duration_ms,
        mtime: t.mtime,
        size: t.size,
        added_at: t.added_at,
    }
}

fn last_with_id_exec(library: &[Track], id: i64) -> (r: Option<&Track>)
    ensures
        r matches Some(t) ==> last_with_id(library@, id) == Some(*t),
        r is None ==> last_with_id(library@, id) is None,
{
    let mut i = library.len();
    assert(library@.take(i as int) == library@);
    while i > 0
        invariant
            i <= library@.len(),
            last_with_id(library@, id) == last_with_id(library@.take(i as int), id),
        decreases i,
    {
        let ghost t = library@.take(i as int);
        assert(t.drop_last() == library@.take(i - 1));
        assert(t.last() == library@[i - 1]);
        if library[i - 1].id == id {
            return Some(&library[i - 1]);
        }
        i -= 1;
    }
    None
}

/// The library tracks of a playlist's ids.
pub fn playlist_tracks(library: &[Track], ids: &[i64]) -> (ts: Vec<Track>)
    ensures
        ts@ == playlist_tracks_spec(library@, ids@),
{
    let mut out: Vec<Track> = Vec::new();
    let mut i: usize = 0;
    assert(ids@.take(0) =~= Seq::<i64>::empty());
    while i < ids.len()
        invariant
            i <= ids@.len(),
            out@ == playlist_tracks_spec(library@, ids@.take(i as int)),
        decreases ids@.len() - i,
    {
        assert(ids@.take(i + 1).drop_last() == ids@.take(i as int));
        assert(ids@.take(i + 1).last() == ids@[i as int]);
        match last_with_id_exec(library, ids[i]) {
            Some(t) => {
                out.push(copy_track(t));
            },
            None => {},
        }
        i += 1;
        assert(out@ =~= playlist_tracks_spec(library@, ids@.take(i as int)));
    }
    assert(ids@.take(ids@.len() as int) == ids@);
    out
}

/// Index of the first playlist named `n`.
pub open spec fn first_named(names: Seq<String>, n: Seq<char>) -> Option<nat>
    decreases names.len(),
{
    if names.len() == 0 {
        None
    } else if names[0]@ == n {
        Some(0)
    } else {
        match first_named(names.skip(1), n) {
            Some(k) => Some(k + 1),
            None => None,
        }
    }
}

/// Position in the playlist picker of the playlist named `selected` (the
/// picker lists "Library" first, then the playlists), or 0 for the library.
pub open spec fn choice_index_spec(names: Seq<String>, selected: Option<Seq<char>>) -> i32 {
    match selected {
        None => 0,
        Some(n) => match first_named(names, n) {
            Some(k) => (k + 1) as i32,
            None => 0,
        },
    }
}

/// The picker entry to show again after the playlists were reloaded.
pub fn choice_index(names: &[String], selected: Option<&str>) -> (r: i32)
    ensures
        r == choice_index_spec(
            names@,
            match selected {
                Some(s) => Some(s@),
                None => None,
            },
        ),
{
    match selected {
        None => 0,
        Some(name) => {
            let mut i: usize = 0;
            assert(names@.skip(0) == names@);
            while i < names.len()
                invariant
                    i <= names@.len(),
                    selected == Some(name),
                    first_named(names@, name@) == match first_named(names@.skip(i as int), name@) {
                        Some(k) => Some((k + i) as nat),
                        None => None,
                    },
                decreases names@.len() - i,
            {
                let ghost rest = names@.skip(i as int);
                assert(rest[0] == names@[i as int]);
                assert(rest.skip(1) == names@.skip(i + 1));
                if str_eq(names[i].as_str(), name) {
                    assert(first_named(names@, name@) == Some(i as nat));
                    let j: usize = i + 1;
                    assert(((i as nat + 1) as i32) == j as i32);
                    return j as i32;
                }
                i += 1;
            }
            0
        },
    }
}

/// What the playlist picker's entry `idx` stands for.
#[derive(Clone, Copy, Debug, PartialEq, Eq, Structural)]
pub enum PickerTarget {
    /// Entry 0 (or anything below): the whole library.
    Library,
    /// A playlist, by its position among the playlists.
    Playlist(usize),
    /// Past the last playlist: nothing.
    Nothing,
}

pub open spec fn picker_target_spec(idx: i32, playlists: usize) -> PickerTarget {
    if idx <= 0 {
        PickerTarget::Library
    } else if idx - 1 < playlists {
        PickerTarget::Playlist((idx - 1) as usize)
    } else {
        PickerTarget::Nothing
    }
}

/// The picker lists "Library" first, then the playlists in order.
pub fn picker_target(idx: i32, playlists: usize) -> (t: PickerTarget)
    ensures
        t == picker_target_spec(idx, playlists),
{
    if idx <= 0 {
        PickerTarget::Library
    } else {
        let k = (idx - 1) as usize;
        if k < playlists {
            PickerTarget::Playlist(k)
        } else {
            PickerTarget::Nothing
        }
    }
}

pub open spec fn now_playing_spec(title: Seq<char>, artist: Seq<char>) -> Seq<char> {
    title + " — "@ + artist
}

/// The "now playing" caption: `title — artist`.
pub fn now_playing_label(title: &str, artist: &str) -> (s: String)
    ensures
        s@ == now_playing_spec(title@, artist@),
{
    let mut v: Vec<char> = Vec::new();
    push_str_chars(&mut v, title);
    push_str_chars(&mut v, " — ");
    push_str_chars(&mut v, artist);
    string_from(v.as_slice())
}

} // verus!
