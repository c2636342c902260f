//! Playlist exports (Exportify's CSV columns) turned into the normalized
//! wanted tracks every import converges on.
use vstd::prelude::*;
use crate::model::{DesiredTrack, ParsedPlaylist};
use crate::numbers::{parse_i64, parse_i64_chars};
use crate::http::chars_eq;
use crate::paths::{path_extension, path_extension_of};
use crate::strings::{chars_of, lower, lower_chars};

verus! {

/// The columns of one export row, each as read (absent when the column or
/// the cell is missing).
#[derive(Clone, Debug)]
pub struct ExportRow {
    pub track_uri: Option<String>,
    pub track_name: Option<String>,
    pub artist_names: Option<String>,
    pub album_name: Option<String>,
    pub duration_ms: Option<String>,
    pub isrc: Option<String>,
    pub playlist_name: Option<String>,
}

/// A cell's text when it is present and not empty.
pub open spec fn filled(o: Option<String>) -> Option<Seq<char>> {
    match o {
        Some(s) => if s@.len() > 0 {
            Some(s@)
        } else {
            None
        },
        None => None,
    }
}

/// A cell's text, or the empty text when it is absent.
pub open spec fn or_empty(o: Option<String>) -> Seq<char> {
    match o {
        Some(s) => s@,
        None => Seq::empty(),
    }
}

/// A row names a track: it has a URI, a title and an artist.
pub open spec fn row_accepted(r: ExportRow) -> bool {
    filled(r.track_uri) is Some && or_empty(r.track_name).len() > 0 && or_empty(r.artist_names).len()
        > 0
}

/// The duration column as a number; 0 when absent or malformed.
pub open spec fn duration_of(r: ExportRow) -> i64 {
    match r.duration_ms {
        Some(s) => match parse_i64(s@) {
            Some(n) => n,
            None => 0,
        },
        None => 0,
    }
}

/// `d` is the wanted track row `r` describes.
pub open spec fn desired_from(d: DesiredTrack, r: ExportRow) -> bool {
    &&& d.uri@ == or_empty(r.track_uri)
    &&& d.title@ == or_empty(r.track_name)
    &&& d.artist@ == or_empty(r.artist_names)
    &&& d.album@ == or_empty(r.album_name)
    &&& d.duration_ms == duration_of(r)
    &&& match filled(r.isrc) {
        Some(i) => d.isrc matches Some(x) && x@ == i,
        None => d.isrc is None,
    }
}

/// The rows that name a track, in order.
pub open spec fn accepted_rows(rows: Seq<ExportRow>) -> Seq<ExportRow>
    decreases rows.len(),
{
    if rows.len() == 0 {
        Seq::empty()
    } else {
        accepted_rows(rows.drop_last()) + if row_accepted(rows.last()) {
            seq![rows.last()]
        } else {
            Seq::empty()
        }
    }
}

/// The first non-empty playlist name among the accepted rows.
pub open spec fn column_name(rows: Seq<ExportRow>) -> Option<Seq<char>>
    decreases rows.len(),
{
    if rows.len() == 0 {
        None
    } else if filled(rows[0].playlist_name) is Some {
        filled(rows[0].playlist_name)
    } else {
        column_name(rows.skip(1))
    }
}

/// The playlist's name: the export's own column if it has one, else the
/// file's stem, else "Imported".
pub open spec fn playlist_name_spec(rows: Seq<ExportRow>, file_stem: Option<Seq<char>>) -> Seq<char> {
    match column_name(accepted_rows(rows)) {
        Some(n) => n,
        None => match file_stem {
            Some(s) => s,
            None => "Imported"@,
        },
    }
}

fn cell_text(o: &Option<String>) -> (s: String)
    ensures
        s@ == or_empty(*o),
{
    match o {
        Some(s) => s.clone(),
        None => String::new(),
    }
}

fn cell_filled(o: &Option<String>) -> (r: Option<String>)
    ensures
        match filled(*o) {
            Some(t) => r matches Some(x) && x@ == t,
            None => r is None,
        },
{
    match o {
        Some(s) => if !s.as_str().is_empty() {
            Some(s.clone())
        } else {
            None
        },
        None => None,
    }
}

fn duration_cell(o: &Option<String>) -> (n: i64)
    ensures
        n == match *o {
            Some(s) => match parse_i64(s@) {
                Some(n) => n,
                None => 0,
            },
            None => 0,
        },
{
    match o {
        Some(s) => {
            let cs = chars_of(s.as_str());
            match parse_i64_chars(cs.as_slice()) {
                Some(n) => n,
                None => 0,
            }
        },
        None => 0,
    }
}

/// The wanted tracks of an export, and its name: rows without a URI, a
/// title or an artist are skipped; a missing or malformed duration counts
/// as 0; an empty ISRC as none. `file_stem` is the export file's name
/// without its extension.
pub fn playlist_from_rows(rows: &[ExportRow], file_stem: Option<String>) -> (p: ParsedPlaylist)
    ensures
        p.tracks@.len() == accepted_rows(rows@).len(),
        forall|i: int|
            0 <= i < p.tracks@.len() ==> desired_from(#[trigger] p.tracks@[i], accepted_rows(rows@)[i]),
        p.name@ == playlist_name_spec(
            rows@,
            match file_stem {
                Some(s) => Some(s@),
                None => None,
            },
        ),
{
    let mut tracks: Vec<DesiredTrack> = Vec::new();
    let mut name: Option<String> = None;
    let mut i: usize = 0;
    assert(rows@.take(0) =~= Seq::<ExportRow>::empty());
    while i < rows.len()
        invariant
            i <= rows@.len(),
            tracks@.len() == accepted_rows(rows@.take(i as int)).len(),
            forall|k: int|
                0 <= k < tracks@.len() ==> desired_from(
                    #[trigger] tracks@[k],
                    accepted_rows(rows@.take(i as int))[k],
                ),
            match column_name(accepted_rows(rows@.take(i as int))) {
                Some(n) => name matches Some(x) && x@ == n,
                None => name is None,
            },
        decreases rows@.len() - i,
    {
        let ghost before = accepted_rows(rows@.take(i as int));
        assert(rows@.take(i + 1).drop_last() == rows@.take(i as int));
        assert(rows@.take(i + 1).last() == rows@[i as int]);
        let row = &rows[i];
        let uri = cell_filled(&row.track_uri);
        let title = cell_text(&row.track_name);
        let artist = cell_text(&row.artist_names);
        if uri.is_some() && !title.as_str().is_empty() && !artist.as_str().is_empty() {
            let ghost after = before.push(*row);
            assert(accepted_rows(rows@.take(i + 1)) == after);
            proof {
                lemma_column_name_push(before, *row);
            }
            if name.is_none() {
                name = cell_filled(&row.playlist_name);
            }
            let d = DesiredTrack {
                uri: uri.unwrap(),
                title,
                artist,
                album: cell_text(&row.album_name),
                duration_ms: duration_cell(&row.duration_ms),
                isrc: cell_filled(&row.isrc),
            };
            tracks.push(d);
            assert forall|k: int| 0 <= k < tracks@.len() implies desired_from(
                #[trigger] tracks@[k],
                after[k],
            ) by {
                if k < before.len() {
                    assert(after[k] == before[k]);
                }
            }
        } else {
            assert(!row_accepted(*row));
            assert(accepted_rows(rows@.take(i + 1)) =~= before);
        }
        i += 1;
    }
    assert(rows@.take(rows@.len() as int) == rows@);
    let name = match name {
        Some(n) => n,
        None => match file_stem {
            Some(s) => s,
            None => {
                let t = String::from_str("Imported");
                t
            },
        },
    };
    ParsedPlaylist { name, tracks }
}

proof fn lemma_column_name_push(rows: Seq<ExportRow>, r: ExportRow)
    ensures
        column_name(rows.push(r)) == match column_name(rows) {
            Some(n) => Some(n),
            None => filled(r.playlist_name),
        },
    decreases rows.len(),
{
    let p = rows.push(r);
    if rows.len() == 0 {
        assert(p[0] == r);
        assert(p.skip(1) =~= Seq::<ExportRow>::empty());
        assert(column_name(p.skip(1)) is None);
    } else {
        assert(p[0] == rows[0]);
        assert(p.skip(1) =~= rows.skip(1).push(r));
        lemma_column_name_push(rows.skip(1), r);
        assert(column_name(p.skip(1)) == column_name(rows.skip(1).push(r)));
    }
}

/// A playlist export: its extension is `csv`, in any case.
pub fn is_export_file(path: &str) -> (b: bool)
    ensures
        b == match path_extension_of(path@) {
            Some(e) => lower(e) == "csv"@,
            None => false,
        },
{
    match path_extension(path) {
        Some(e) => {
            let cs = chars_of(e.as_str());
            let l = lower_chars(cs.as_slice());
            let csv = chars_of("csv");
            chars_eq(l.as_slice(), csv.as_slice())
        },
        None => false,
    }
}

} // verus!
