//! Playlist files (`.m3u8`): the text written for a list of tracks, the
//! entries read back from such a text, and the track ids they stand for.
use vstd::prelude::*;
use crate::library::{find_fingerprint, find_fingerprint_exec, Fingerprint};
use crate::paths::{
    is_absolute, path_extension, path_extension_of, path_is_absolute, path_join, path_join_of,
    path_parent, path_parent_of,
};
use crate::strings::{
    chars_of, push_str_chars, split, split_chars, split_from, string_from, trim, trim_chars,
};

verus! {

/// One line per path, each ended by a newline.
pub open spec fn m3u8_lines(paths: Seq<Seq<char>>) -> Seq<char>
    decreases paths.len(),
{
    if paths.len() == 0 {
        Seq::empty()
    } else {
        paths[0] + seq!['\n'] + m3u8_lines(paths.skip(1))
    }
}

/// The text of a playlist file: the `#EXTM3U` header line, then one path
/// per line.
pub open spec fn m3u8_text_spec(paths: Seq<Seq<char>>) -> Seq<char> {
    "#EXTM3U\n"@ + m3u8_lines(paths)
}

pub open spec fn string_views(v: Seq<String>) -> Seq<Seq<char>> {
    v.map_values(|s: String| s@)
}

/// The text a playlist of `track_paths` is written as.
pub fn m3u8_text(track_paths: &[String]) -> (text: String)
    ensures
        text@ == m3u8_text_spec(string_views(track_paths@)),
{
    let ghost pv = string_views(track_paths@);
    let mut v: Vec<char> = Vec::new();
    push_str_chars(&mut v, "#EXTM3U\n");
    let ghost head = v@;
    let mut i: usize = 0;
    assert(pv.skip(0) == pv);
    while i < track_paths.len()
        invariant
            i <= track_paths@.len(),
            pv == string_views(track_paths@),
            v@ + m3u8_lines(pv.skip(i as int)) == head + m3u8_lines(pv),
        decreases track_paths@.len() - i,
    {
        let ghost rest = pv.skip(i as int);
        assert(rest[0] == track_paths@[i as int]@);
        assert(rest.skip(1) == pv.skip(i + 1));
        let ghost before = v@;
        push_str_chars(&mut v, track_paths[i].as_str());
        v.push('\n');
        assert(before + m3u8_lines(rest) =~= v@ + m3u8_lines(rest.skip(1)));
        i += 1;
    }
    assert(pv.skip(i as int).len() == 0);
    assert(v@ =~= head + m3u8_lines(pv));
    string_from(v.as_slice())
}

/// A trimmed line names a track: it is not blank and not a `#` comment.
pub open spec fn is_entry(l: Seq<char>) -> bool {
    l.len() > 0 && l[0] != '#'
}

/// The track lines among `lines`, trimmed, in order.
pub open spec fn entry_lines(lines: Seq<Seq<char>>) -> Seq<Seq<char>>
    decreases lines.len(),
{
    if lines.len() == 0 {
        Seq::empty()
    } else {
        (if is_entry(trim(lines[0])) {
            seq![trim(lines[0])]
        } else {
            Seq::empty()
        }) + entry_lines(lines.skip(1))
    }
}

/// The directory relative entries are resolved against: the playlist
/// file's parent, or `.` when it has none.
pub open spec fn base_dir(playlist_path: Seq<char>) -> Seq<char> {
    match path_parent_of(playlist_path) {
        Some(b) => b,
        None => "."@,
    }
}

/// An entry as a path: absolute ones as they are, relative ones joined
/// onto `base`.
pub open spec fn resolve(base: Seq<char>, e: Seq<char>) -> Seq<char> {
    if path_is_absolute(e) {
        e
    } else {
        path_join_of(base, e)
    }
}

/// The track paths a playlist file at `playlist_path` holding `text`
/// lists.
pub open spec fn m3u8_paths_spec(playlist_path: Seq<char>, text: Seq<char>) -> Seq<Seq<char>> {
    let base = base_dir(playlist_path);
    entry_lines(split(text, '\n')).map_values(|e: Seq<char>| resolve(base, e))
}

/// Reads the text of the playlist file at `playlist_path`: every line,
/// trimmed, that is neither blank nor a `#` comment names a track; relative
/// names are resolved against the playlist's own directory.
pub fn parse_m3u8(playlist_path: &str, text: &str) -> (paths: Vec<String>)
    ensures
        string_views(paths@) == m3u8_paths_spec(playlist_path@, text@),
{
    let base = match path_parent(playlist_path) {
        Some(b) => b,
        None => string_from(chars_of(".").as_slice()),
    };
    let ghost bs = base_dir(playlist_path@);
    assert(base@ == bs);
    let cs = chars_of(text);
    let lines = split_chars(cs.as_slice(), '\n');
    let ghost lv = lines@.map_values(|v: Vec<char>| v@);
    assert(lv == split(text@, '\n'));
    let mut out: Vec<String> = Vec::new();
    let mut i: usize = 0;
    assert(lv.skip(0) == lv);
    assert(string_views(out@) =~= Seq::<Seq<char>>::empty());
    while i < lines.len()
        invariant
            i <= lines@.len(),
            lv == lines@.map_values(|v: Vec<char>| v@),
            base@ == bs,
            string_views(out@) + entry_lines(lv.skip(i as int)).map_values(
                |e: Seq<char>| resolve(bs, e),
            ) == entry_lines(lv).map_values(|e: Seq<char>| resolve(bs, e)),
        decreases lines@.len() - i,
    {
        let ghost rest = lv.skip(i as int);
        assert(rest[0] == lines@[i as int]@);
        assert(rest.skip(1) == lv.skip(i + 1));
        let ghost before = string_views(out@);
        let t = trim_chars(lines[i].as_slice());
        if t.len() > 0 && t[0] != '#' {
            let e = string_from(t.as_slice());
            let r = if is_absolute(e.as_str()) {
                e
            } else {
                path_join(base.as_str(), e.as_str())
            };
            out.push(r);
            assert(string_views(out@) =~= before.push(resolve(bs, t@)));
            assert(entry_lines(rest) =~= seq![t@] + entry_lines(rest.skip(1)));
            assert(entry_lines(rest).map_values(|e: Seq<char>| resolve(bs, e)) =~= seq![
                resolve(bs, t@),
            ] + entry_lines(rest.skip(1)).map_values(|e: Seq<char>| resolve(bs, e)));
        } else {
            assert(entry_lines(rest) =~= entry_lines(rest.skip(1)));
        }
        assert(string_views(out@) + entry_lines(lv.skip(i + 1)).map_values(
            |e: Seq<char>| resolve(bs, e),
        ) =~= before + entry_lines(rest).map_values(|e: Seq<char>| resolve(bs, e)));
        i += 1;
    }
    assert(lv.skip(i as int).len() == 0);
    assert(string_views(out@) =~= entry_lines(lv).map_values(|e: Seq<char>| resolve(bs, e)));
    out
}

/// The track ids of the playlist's paths that the library knows, in
/// playlist order.
pub open spec fn ids_for_paths_spec(paths: Seq<Seq<char>>, known: Seq<Fingerprint>) -> Seq<i64>
    decreases paths.len(),
{
    if paths.len() == 0 {
        Seq::empty()
    } else {
        ids_for_paths_spec(paths.drop_last(), known) + match find_fingerprint(known, paths.last()) {
            Some(f) => seq![f.id],
            None => Seq::empty(),
        }
    }
}

pub fn ids_for_paths(paths: &[String], known: &[Fingerprint]) -> (ids: Vec<i64>)
    ensures
        ids@ == ids_for_paths_spec(string_views(paths@), known@),
{
    let ghost pv = string_views(paths@);
    let mut ids: Vec<i64> = Vec::new();
    let mut i: usize = 0;
    assert(pv.take(0) =~= Seq::<Seq<char>>::empty());
    while i < paths.len()
        invariant
            i <= paths@.len(),
            pv == string_views(paths@),
            ids@ == ids_for_paths_spec(pv.take(i as int), known@),
        decreases paths@.len() - i,
    {
        assert(pv.take(i + 1).drop_last() == pv.take(i as int));
        assert(pv.take(i + 1).last() == paths@[i as int]@);
        match find_fingerprint_exec(known, paths[i].as_str()) {
            Some(f) => {
                ids.push(f.id);
            },
            None => {},
        }
        i += 1;
        assert(ids@ =~= ids_for_paths_spec(pv.take(i as int), known@));
    }
    assert(pv.take(paths@.len() as int) == pv);
    ids
}

/// A track path that survives a playlist file unchanged: not empty, no
/// surrounding whitespace, not starting with `#`, no line break, absolute.
pub open spec fn plain_path(p: Seq<char>) -> bool {
    &&& p.len() > 0
    &&& p[0] != '#'
    &&& trim(p) == p
    &&& forall|i: int| 0 <= i < p.len() ==> p[i] != '\n'
    &&& path_is_absolute(p)
}

proof fn lemma_split_line(p: Seq<char>, rest: Seq<char>, cur: Seq<char>)
    requires
        forall|i: int| 0 <= i < p.len() ==> p[i] != '\n',
    ensures
        split_from(p + seq!['\n'] + rest, '\n', cur) == seq![cur + p] + split_from(
            rest,
            '\n',
            Seq::empty(),
        ),
    decreases p.len(),
{
    let s = p + seq!['\n'] + rest;
    if p.len() == 0 {
        assert(s =~= seq!['\n'] + rest);
        assert(s.skip(1) =~= rest);
        assert(cur + p =~= cur);
    } else {
        assert(s[0] == p[0]);
        let p1 = p.skip(1);
        assert forall|i: int| 0 <= i < p1.len() implies p1[i] != '\n' by {
            assert(p1[i] == p[i + 1]);
        }
        assert(s.skip(1) =~= p1 + seq!['\n'] + rest);
        lemma_split_line(p1, rest, cur.push(p[0]));
        assert(cur.push(p[0]) + p1 =~= cur + p);
    }
}

proof fn lemma_split_lines(paths: Seq<Seq<char>>)
    requires
        forall|i: int| 0 <= i < paths.len() ==> plain_path(#[trigger] paths[i]),
    ensures
        split_from(m3u8_lines(paths), '\n', Seq::empty()) == paths + seq![Seq::<char>::empty()],
    decreases paths.len(),
{
    if paths.len() == 0 {
        assert(paths + seq![Seq::<char>::empty()] =~= seq![Seq::<char>::empty()]);
    } else {
        let rest = paths.skip(1);
        assert(plain_path(paths[0]));
        assert forall|i: int| 0 <= i < rest.len() implies plain_path(#[trigger] rest[i]) by {
            assert(rest[i] == paths[i + 1]);
        }
        lemma_split_lines(rest);
        lemma_split_line(paths[0], m3u8_lines(rest), Seq::empty());
        assert(Seq::<char>::empty() + paths[0] =~= paths[0]);
        assert(seq![paths[0]] + (rest + seq![Seq::<char>::empty()]) =~= paths + seq![
            Seq::<char>::empty(),
        ]);
    }
}

proof fn lemma_entry_lines_plain(paths: Seq<Seq<char>>)
    requires
        forall|i: int| 0 <= i < paths.len() ==> plain_path(#[trigger] paths[i]),
    ensures
        entry_lines(paths + seq![Seq::<char>::empty()]) == paths,
    decreases paths.len(),
{
    let all = paths + seq![Seq::<char>::empty()];
    if paths.len() == 0 {
        assert(all.skip(1) =~= Seq::<Seq<char>>::empty());
        assert(trim(Seq::<char>::empty()) =~= Seq::<char>::empty());
        assert(all[0] == Seq::<char>::empty());
        assert(!is_entry(trim(all[0])));
        assert(entry_lines(all) =~= entry_lines(all.skip(1)));
        assert(paths =~= Seq::<Seq<char>>::empty());
    } else {
        let rest = paths.skip(1);
        assert(plain_path(paths[0]));
        assert forall|i: int| 0 <= i < rest.len() implies plain_path(#[trigger] rest[i]) by {
            assert(rest[i] == paths[i + 1]);
        }
        lemma_entry_lines_plain(rest);
        assert(all[0] == paths[0]);
        assert(all.skip(1) =~= rest + seq![Seq::<char>::empty()]);
        assert(trim(all[0]) == paths[0]);
        assert(is_entry(trim(all[0])));
        assert(entry_lines(all) =~= seq![paths[0]] + entry_lines(all.skip(1)));
        assert(seq![paths[0]] + rest =~= paths);
    }
}

/// Writing a playlist of plain absolute paths and reading the text back
/// gives the same paths, in the same order, wherever the file is.
pub proof fn lemma_m3u8_round_trip(playlist_path: Seq<char>, paths: Seq<Seq<char>>)
    requires
        forall|i: int| 0 <= i < paths.len() ==> plain_path(#[trigger] paths[i]),
    ensures
        m3u8_paths_spec(playlist_path, m3u8_text_spec(paths)) == paths,
{
    reveal_strlit("#EXTM3U\n");
    let header = seq!['#', 'E', 'X', 'T', 'M', '3', 'U'];
    let text = m3u8_text_spec(paths);
    assert(text =~= header + seq!['\n'] + m3u8_lines(paths));
    lemma_split_line(header, m3u8_lines(paths), Seq::empty());
    lemma_split_lines(paths);
    assert(Seq::<char>::empty() + header =~= header);
    let lines = split(text, '\n');
    assert(lines =~= seq![header] + (paths + seq![Seq::<char>::empty()]));
    assert(trim(header) =~= header);
    assert(lines[0] == header);
    assert(lines.skip(1) =~= paths + seq![Seq::<char>::empty()]);
    lemma_entry_lines_plain(paths);
    let base = base_dir(playlist_path);
    assert(entry_lines(lines) =~= paths);
    assert(entry_lines(lines).map_values(|e: Seq<char>| resolve(base, e)) =~= paths);
}

/// A playlist file: its extension is exactly `m3u8`.
pub fn is_playlist_file(path: &str) -> (b: bool)
    ensures
        b == (path_extension_of(path@) == Some("m3u8"@)),
{
    match path_extension(path) {
        Some(e) => crate::http::str_eq(e.as_str(), "m3u8"),
        None => false,
    }
}

} // verus!
