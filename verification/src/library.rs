//! The library scan's decisions: which files to re-read, which cached
//! tracks vanished, what the scan reports, and which directories are not
//! music.
use vstd::prelude::*;
use crate::http::str_eq;
use crate::paths::{path_join, path_join_of, path_starts_with, path_starts_with_of};

verus! {

/// What the cache knows about a file: its track id and the modification
/// time and size its tags were read at.
#[derive(Clone, Debug)]
pub struct Fingerprint {
    pub path: String,
    pub id: i64,
    pub mtime: i64,
    pub size: i64,
}

/// The first cached entry for `path`.
pub open spec fn find_fingerprint(known: Seq<Fingerprint>, path: Seq<char>) -> Option<Fingerprint>
    decreases known.len(),
{
    if known.len() == 0 {
        None
    } else if known[0].path@ == path {
        Some(known[0])
    } else {
        find_fingerprint(known.skip(1), path)
    }
}

pub fn find_fingerprint_exec<'a>(known: &'a [Fingerprint], path: &str) -> (r: Option<&'a Fingerprint>)
    ensures
        r matches Some(f) ==> find_fingerprint(known@, path@) == Some(*f),
        r is None ==> find_fingerprint(known@, path@) is None,
{
    let mut i: usize = 0;
    assert(known@.skip(0) == known@);
    while i < known.len()
        invariant
            i <= known@.len(),
            find_fingerprint(known@, path@) == find_fingerprint(known@.skip(i as int), path@),
        decreases known@.len() - i,
    {
        let ghost rest = known@.skip(i as int);
        assert(rest[0] == known@[i as int]);
        assert(rest.skip(1) == known@.skip(i + 1));
        if str_eq(known[i].path.as_str(), path) {
            return Some(&known[i]);
        }
        i += 1;
    }
    None
}

/// What to do with a file found on disk.
#[derive(Clone, Copy, Debug, PartialEq, Eq, Structural)]
pub enum FileAction {
    /// Cached with the same modification time and size: leave it.
    Unchanged,
    /// Read its tags; `is_new` when the cache has no entry for it.
    Read { is_new: bool },
}

pub open spec fn classify_spec(known: Seq<Fingerprint>, path: Seq<char>, mtime: i64, size: i64) -> FileAction {
    match find_fingerprint(known, path) {
        Some(f) => if f.mtime == mtime && f.size == size {
            FileAction::Unchanged
        } else {
            FileAction::Read { is_new: false }
        },
        None => FileAction::Read { is_new: true },
    }
}

/// Modification time and size decide whether a file's tags are re-read.
pub fn classify_file(known: &[Fingerprint], path: &str, mtime: i64, size: i64) -> (a: FileAction)
    ensures
        a == classify_spec(known@, path@, mtime, size),
{
    match find_fingerprint_exec(known, path) {
        Some(f) => if f.mtime == mtime && f.size == size {
            FileAction::Unchanged
        } else {
            FileAction::Read { is_new: false }
        },
        None => FileAction::Read { is_new: true },
    }
}

/// Some entry of `seen` reads `p`.
pub open spec fn seen_contains(seen: Seq<String>, p: Seq<char>) -> bool {
    exists|i: int| 0 <= i < seen.len() && #[trigger] seen[i]@ == p
}

/// The ids of the cached entries whose file was not seen, in cache order.
pub open spec fn stale_spec(known: Seq<Fingerprint>, seen: Seq<String>) -> Seq<i64>
    decreases known.len(),
{
    if known.len() == 0 {
        Seq::empty()
    } else {
        stale_spec(known.drop_last(), seen) + if seen_contains(seen, known.last().path@) {
            Seq::<i64>::empty()
        } else {
            seq![known.last().id]
        }
    }
}

fn seen_exec(seen: &[String], p: &str) -> (r: bool)
    ensures
        r == seen_contains(seen@, p@),
{
    let mut i: usize = 0;
    while i < seen.len()
        invariant
            i <= seen@.len(),
            forall|k: int| 0 <= k < i ==> seen@[k]@ != p@,
        decreases seen@.len() - i,
    {
        if str_eq(seen[i].as_str(), p) {
            return true;
        }
        i += 1;
    }
    false
}

/// Cached tracks whose file the scan did not find: they are dropped.
pub fn stale_ids(known: &[Fingerprint], seen: &[String]) -> (ids: Vec<i64>)
    ensures
        ids@ == stale_spec(known@, seen@),
{
    let mut ids: Vec<i64> = Vec::new();
    let mut i: usize = 0;
    assert(known@.take(0) =~= Seq::<Fingerprint>::empty());
    while i < known.len()
        invariant
            i <= known@.len(),
            ids@ == stale_spec(known@.take(i as int), seen@),
        decreases known@.len() - i,
    {
        assert(known@.take(i + 1).drop_last() == known@.take(i as int));
        assert(known@.take(i + 1).last() == known@[i as int]);
        if !seen_exec(seen, known[i].path.as_str()) {
            ids.push(known[i].id);
        }
        i += 1;
        assert(ids@ =~= stale_spec(known@.take(i as int), seen@));
    }
    assert(known@.take(known@.len() as int) == known@);
    ids
}

/// A scan's tally.
#[derive(Clone, Copy, Debug, Default)]
pub struct ScanReport {
    pub added: u32,
    pub updated: u32,
    pub unchanged: u32,
    pub removed: u32,
}

impl ScanReport {
    pub fn new() -> (r: ScanReport)
        ensures
            r.added == 0 && r.updated == 0 && r.unchanged == 0 && r.removed == 0,
    {
        ScanReport { added: 0, updated: 0, unchanged: 0, removed: 0 }
    }

    /// Counts a file left as it was.
    pub fn record_unchanged(&mut self)
        requires
            old(self).unchanged < u32::MAX,
        ensures
            *final(self) == (ScanReport { unchanged: (old(self).unchanged + 1) as u32, ..*old(self) }),
    {
        self.unchanged = self.unchanged + 1;
    }

    /// Counts a file whose tags were read and stored.
    pub fn record_read(&mut self, is_new: bool)
        requires
            is_new ==> old(self).added < u32::MAX,
            !is_new ==> old(self).updated < u32::MAX,
        ensures
            is_new ==> *final(self) == (ScanReport { added: (old(self).added + 1) as u32, ..*old(self) }),
            !is_new ==> *final(self) == (ScanReport {
                updated: (old(self).updated + 1) as u32,
                ..*old(self)
            }),
    {
        if is_new {
            self.added = self.added + 1;
        } else {
            self.updated = self.updated + 1;
        }
    }

    /// Records how many stale tracks were dropped (as a `u32`, wrapping
    /// past its range).
    pub fn record_removed(&mut self, n: usize)
        ensures
            *final(self) == (ScanReport { removed: n as u32, ..*old(self) }),
    {
        self.removed = n as u32;
    }
}

/// `<library>/_playlists`, where playlist files live.
pub open spec fn playlists_dir_spec(library_dir: Seq<char>) -> Seq<char> {
    path_join_of(library_dir, "_playlists"@)
}

/// `<library>/_inbox`, where playlist exports are dropped.
pub open spec fn inbox_dir_spec(library_dir: Seq<char>) -> Seq<char> {
    path_join_of(library_dir, "_inbox"@)
}

pub fn playlists_dir(library_dir: &str) -> (d: String)
    ensures
        d@ == playlists_dir_spec(library_dir@),
{
    path_join(library_dir, "_playlists")
}

pub fn inbox_dir(library_dir: &str) -> (d: String)
    ensures
        d@ == inbox_dir_spec(library_dir@),
{
    path_join(library_dir, "_inbox")
}

/// `path` lies under one of the library's reserved directories, which the
/// scanner does not treat as music.
pub fn is_reserved(library_dir: &str, path: &str) -> (r: bool)
    ensures
        r == (path_starts_with_of(path@, playlists_dir_spec(library_dir@)) || path_starts_with_of(
            path@,
            inbox_dir_spec(library_dir@),
        )),
{
    let p = playlists_dir(library_dir);
    let i = inbox_dir(library_dir);
    path_starts_with(path, p.as_str()) || path_starts_with(path, i.as_str())
}

/// The tags a file is listed under.
#[derive(Clone, Debug)]
pub struct FileTags {
    pub title: String,
    pub artist: String,
    pub album: String,
    pub track_no: Option<i64>,
    pub duration_ms: i64,
}

/// A tag value when it is present and not empty.
pub open spec fn tag_value(o: Option<String>) -> Option<Seq<char>> {
    match o {
        Some(s) => if s@.len() > 0 {
            Some(s@)
        } else {
            None
        },
        None => None,
    }
}

fn tag_or(o: Option<String>, fallback: String) -> (s: String)
    ensures
        s@ == match tag_value(o) {
            Some(v) => v,
            None => fallback@,
        },
{
    match o {
        Some(v) => if !v.as_str().is_empty() {
            v
        } else {
            fallback
        },
        None => fallback,
    }
}

/// The tags a file is listed under, from what its tag holds: an empty or
/// missing title falls back to the file's stem (or "Unknown Title"), a
/// missing artist to "Unknown Artist", a missing album to "Unknown Album".
pub fn file_tags(
    title: Option<String>,
    artist: Option<String>,
    album: Option<String>,
    track: Option<u32>,
    duration_ms: i64,
    file_stem: Option<String>,
) -> (t: FileTags)
    ensures
        t.title@ == match tag_value(title) {
            Some(v) => v,
            None => match file_stem {
                Some(s) => s@,
                None => "Unknown Title"@,
            },
        },
        t.artist@ == match tag_value(artist) {
            Some(v) => v,
            None => "Unknown Artist"@,
        },
        t.album@ == match tag_value(album) {
            Some(v) => v,
            None => "Unknown Album"@,
        },
        t.track_no == match track {
            Some(n) => Some(n as i64),
            None => None,
        },
        t.duration_ms == duration_ms,
{
    let stem = match file_stem {
        Some(s) => s,
        None => String::from_str("Unknown Title"),
    };
    FileTags {
        title: tag_or(title, stem),
        artist: tag_or(artist, String::from_str("Unknown Artist")),
        album: tag_or(album, String::from_str("Unknown Album")),
        track_no: match track {
            Some(n) => Some(n as i64),
            None => None,
        },
        duration_ms,
    }
}

/// A file whose modification time and size match its cached entry is not
/// read again; any other file is.
pub proof fn lemma_only_changed_files_are_read(known: Seq<Fingerprint>, path: Seq<char>, mtime: i64, size: i64)
    ensures
        classify_spec(known, path, mtime, size) == FileAction::Unchanged <==> (find_fingerprint(
            known,
            path,
        ) matches Some(f) && f.mtime == mtime && f.size == size),
        classify_spec(known, path, mtime, size) == (FileAction::Read { is_new: true }) <==> find_fingerprint(
            known,
            path,
        ) is None,
{
}

/// The dropped tracks are exactly the cached ones whose file was not seen:
/// every unseen entry's id is dropped, and every dropped id belongs to an
/// unseen entry.
pub proof fn lemma_stale_are_exactly_unseen(known: Seq<Fingerprint>, seen: Seq<String>)
    ensures
        forall|i: int|
            0 <= i < known.len() && !seen_contains(seen, known[i].path@) ==> stale_spec(
                known,
                seen,
            ).contains(#[trigger] known[i].id),
        forall|k: int|
            0 <= k < stale_spec(known, seen).len() ==> exists|i: int|
                0 <= i < known.len() && !seen_contains(seen, known[i].path@) && known[i].id
                    == #[trigger] stale_spec(known, seen)[k],
    decreases known.len(),
{
    if known.len() > 0 {
        let d = known.drop_last();
        lemma_stale_are_exactly_unseen(d, seen);
        let sd = stale_spec(d, seen);
        let s = stale_spec(known, seen);
        let last = known.last();
        assert forall|i: int|
            0 <= i < known.len() && !seen_contains(seen, known[i].path@) implies s.contains(
            #[trigger] known[i].id,
        ) by {
            if i < d.len() {
                assert(d[i] == known[i]);
                assert(sd.contains(d[i].id));
                let k = choose|k: int| 0 <= k < sd.len() && sd[k] == d[i].id;
                assert(s[k] == sd[k]);
            } else {
                assert(s[sd.len() as int] == last.id);
            }
        }
        assert forall|k: int| 0 <= k < s.len() implies exists|i: int|
            0 <= i < known.len() && !seen_contains(seen, known[i].path@) && known[i].id
                == #[trigger] s[k] by {
            if k < sd.len() {
                assert(s[k] == sd[k]);
                let i = choose|i: int|
                    0 <= i < d.len() && !seen_contains(seen, d[i].path@) && d[i].id == sd[k];
                assert(known[i] == d[i]);
            } else {
                assert(known[known.len() - 1] == last);
            }
        }
    }
}

} // verus!
