//! File-path questions the library asks: a file's extension, whether it is
//! an audio file, the artist/album folders above it, and how a tag value
//! becomes a safe path component.
use vstd::prelude::*;
use crate::strings::{
    chars_of, is_ws, lead_ws, lemma_lead_ws_bound, lemma_trail_ws_bound, lower, lower_chars,
    string_from, trail_ws, trim, trim_chars,
};

verus! {

/// Name for `Path::extension` of a path given as text (`None` when the
/// file name has no extension).
pub uninterp spec fn path_extension_of(path: Seq<char>) -> Option<Seq<char>>;

/// Name for `Path::parent` of a path given as text.
pub uninterp spec fn path_parent_of(path: Seq<char>) -> Option<Seq<char>>;

/// Name for `Path::file_name` of a path given as text.
pub uninterp spec fn path_file_name_of(path: Seq<char>) -> Option<Seq<char>>;

/// Name for `Path::join`: `rel` appended to `base` as a path.
pub uninterp spec fn path_join_of(base: Seq<char>, rel: Seq<char>) -> Seq<char>;

/// Calls `Path::extension` on `Path::new(path)`. A path built from text has
/// a UTF-8 extension, so the conversion back to text loses nothing; what
/// the extension is, is left to the name.
#[verifier::external_body]
pub(crate) fn path_extension(path: &str) -> (r: Option<String>)
    ensures
        r matches Some(e) ==> path_extension_of(path@) == Some(e@),
        r is None ==> path_extension_of(path@) is None,
{
    match std::path::Path::new(path).extension() {
        Some(e) => Some(e.to_string_lossy().into_owned()),
        None => None,
    }
}

/// Calls `Path::parent` on `Path::new(path)`, returned as text.
#[verifier::external_body]
pub(crate) fn path_parent(path: &str) -> (r: Option<String>)
    ensures
        r matches Some(p) ==> path_parent_of(path@) == Some(p@),
        r is None ==> path_parent_of(path@) is None,
{
    match std::path::Path::new(path).parent() {
        Some(p) => Some(p.to_string_lossy().into_owned()),
        None => None,
    }
}

/// Calls `Path::file_name` on `Path::new(path)`, returned as text.
#[verifier::external_body]
pub(crate) fn path_file_name(path: &str) -> (r: Option<String>)
    ensures
        r matches Some(p) ==> path_file_name_of(path@) == Some(p@),
        r is None ==> path_file_name_of(path@) is None,
{
    match std::path::Path::new(path).file_name() {
        Some(p) => Some(p.to_string_lossy().into_owned()),
        None => None,
    }
}

/// Calls `Path::join` on `Path::new(base)`, returned as text.
#[verifier::external_body]
pub(crate) fn path_join(base: &str, rel: &str) -> (r: String)
    ensures
        r@ == path_join_of(base@, rel@),
{
    std::path::Path::new(base).join(rel).to_string_lossy().into_owned()
}

/// Name for `Path::is_absolute` of a path given as text.
pub uninterp spec fn path_is_absolute(path: Seq<char>) -> bool;

/// Calls `Path::is_absolute` on `Path::new(path)`; which paths are
/// absolute (this depends on the platform's path syntax) is left to the name.
#[verifier::external_body]
pub(crate) fn is_absolute(path: &str) -> (r: bool)
    ensures
        r == path_is_absolute(path@),
{
    std::path::Path::new(path).is_absolute()
}

/// Name for `Path::starts_with`: `base` is a leading run of whole
/// components of `path`.
pub uninterp spec fn path_starts_with_of(path: Seq<char>, base: Seq<char>) -> bool;

/// Calls `Path::starts_with` on `Path::new(path)`; how components compare is
/// left to the name.
#[verifier::external_body]
pub(crate) fn path_starts_with(path: &str, base: &str) -> (r: bool)
    ensures
        r == path_starts_with_of(path@, base@),
{
    std::path::Path::new(path).starts_with(base)
}

/// The lowercased extension of `path`, or the empty string.
pub open spec fn extension_spec(path: Seq<char>) -> Seq<char> {
    match path_extension_of(path) {
        Some(e) => lower(e),
        None => Seq::empty(),
    }
}

pub fn extension_of(path: &str) -> (e: String)
    ensures
        e@ == extension_spec(path@),
{
    match path_extension(path) {
        Some(e) => {
            let cs = chars_of(e.as_str());
            let l = lower_chars(cs.as_slice());
            string_from(l.as_slice())
        },
        None => String::new(),
    }
}

/// The extensions the library scanner picks up.
pub open spec fn audio_extensions() -> Seq<Seq<char>> {
    seq!["mp3"@, "flac"@, "m4a"@, "mp4"@, "aac"@, "ogg"@, "oga"@, "wav"@]
}

pub open spec fn is_audio_spec(path: Seq<char>) -> bool {
    match path_extension_of(path) {
        Some(e) => audio_extensions().contains(lower(e)),
        None => false,
    }
}

/// A file is an audio file exactly when its extension, lowercased, is one
/// of mp3, flac, m4a, mp4, aac, ogg, oga or wav; a file without an
/// extension is not.
pub proof fn lemma_audio_formats(path: Seq<char>)
    ensures
        is_audio_spec(path) <==> match path_extension_of(path) {
            Some(e) => {
                let l = lower(e);
                ||| l == "mp3"@
                ||| l == "flac"@
                ||| l == "m4a"@
                ||| l == "mp4"@
                ||| l == "aac"@
                ||| l == "ogg"@
                ||| l == "oga"@
                ||| l == "wav"@
            },
            None => false,
        },
{
    match path_extension_of(path) {
        Some(e) => {
            let l = lower(e);
            let xs = audio_extensions();
            assert(xs[0] == "mp3"@ && xs[1] == "flac"@ && xs[2] == "m4a"@ && xs[3] == "mp4"@);
            assert(xs[4] == "aac"@ && xs[5] == "ogg"@ && xs[6] == "oga"@ && xs[7] == "wav"@);
            if xs.contains(l) {
                let k = choose|k: int| 0 <= k < xs.len() && xs[k] == l;
                assert(0 <= k < 8);
            }
            if l == "mp3"@ {
                assert(xs[0] == l);
            }
            if l == "flac"@ {
                assert(xs[1] == l);
            }
            if l == "m4a"@ {
                assert(xs[2] == l);
            }
            if l == "mp4"@ {
                assert(xs[3] == l);
            }
            if l == "aac"@ {
                assert(xs[4] == l);
            }
            if l == "ogg"@ {
                assert(xs[5] == l);
            }
            if l == "oga"@ {
                assert(xs[6] == l);
            }
            if l == "wav"@ {
                assert(xs[7] == l);
            }
        },
        None => {},
    }
}

/// True for a path whose extension (in any case) is one of the audio formats.
pub fn is_audio_file(path: &str) -> (b: bool)
    ensures
        b == is_audio_spec(path@),
{
    match path_extension(path) {
        Some(e) => {
            let cs = chars_of(e.as_str());
            let l = lower_chars(cs.as_slice());
            let ls = string_from(l.as_slice());
            let exts: [&str; 8] = ["mp3", "flac", "m4a", "mp4", "aac", "ogg", "oga", "wav"];
            let mut i: usize = 0;
            while i < 8
                invariant
                    i <= 8,
                    exts@ == seq!["mp3", "flac", "m4a", "mp4", "aac", "ogg", "oga", "wav"],
                    ls@ == lower(e@),
                    path_extension_of(path@) == Some(e@),
                    forall|j: int| 0 <= j < i ==> audio_extensions()[j] != ls@,
                    forall|j: int| 0 <= j < 8 ==> (#[trigger] exts@[j])@ == audio_extensions()[j],
                decreases 8 - i,
            {
                if crate::http::str_eq(ls.as_str(), exts[i]) {
                    assert(exts@[i as int]@ == audio_extensions()[i as int]);
                    assert(audio_extensions()[i as int] == ls@);
                    assert(audio_extensions().contains(ls@));
                    return true;
                }
                i += 1;
            }
            assert(!audio_extensions().contains(ls@));
            false
        },
        None => false,
    }
}

/// The characters that may not appear in a file name on common filesystems.
pub open spec fn is_forbidden_in_name(c: char) -> bool {
    c == '/' || c == '\\' || c == ':' || c == '*' || c == '?' || c == '"' || c == '<' || c == '>'
        || c == '|'
}

/// `char::is_control`: the Unicode `Cc` category.
pub open spec fn is_control(c: char) -> bool {
    c <= '\u{1F}' || ('\u{7F}' <= c && c <= '\u{9F}')
}

pub open spec fn sanitize_char(c: char) -> char {
    if is_forbidden_in_name(c) || is_control(c) {
        '_'
    } else {
        c
    }
}

/// A tag value made safe as one path component: forbidden and control
/// characters become `_`, surrounding whitespace goes, and an empty result
/// becomes `Unknown`.
pub open spec fn sanitize_spec(s: Seq<char>) -> Seq<char> {
    let t = trim(s.map_values(|c: char| sanitize_char(c)));
    if t.len() == 0 {
        "Unknown"@
    } else {
        t
    }
}

pub fn sanitize_component(s: &str) -> (out: String)
    ensures
        out@ == sanitize_spec(s@),
{
    let cs = chars_of(s);
    let mut mapped: Vec<char> = Vec::new();
    let mut i: usize = 0;
    while i < cs.len()
        invariant
            i <= cs@.len(),
            cs@ == s@,
            mapped@ == cs@.take(i as int).map_values(|c: char| sanitize_char(c)),
        decreases cs@.len() - i,
    {
        let c = cs[i];
        let forbidden = c == '/' || c == '\\' || c == ':' || c == '*' || c == '?' || c == '"' || c
            == '<' || c == '>' || c == '|';
        let control = c <= '\u{1F}' || ('\u{7F}' <= c && c <= '\u{9F}');
        mapped.push(
            if forbidden || control {
                '_'
            } else {
                c
            },
        );
        i += 1;
        assert(mapped@ =~= cs@.take(i as int).map_values(|c: char| sanitize_char(c)));
    }
    assert(cs@.take(cs@.len() as int) == cs@);
    let t = trim_chars(mapped.as_slice());
    if t.len() == 0 {
        "Unknown".to_string()
    } else {
        string_from(t.as_slice())
    }
}

proof fn lemma_trim_ends(t: Seq<char>)
    ensures
        lead_ws(t) + trim(t).len() <= t.len(),
        forall|i: int| 0 <= i < trim(t).len() ==> #[trigger] trim(t)[i] == t[i + lead_ws(t)],
        trim(t).len() > 0 ==> !is_ws(trim(t)[0]) && !is_ws(trim(t).last()),
{
    lemma_lead_ws_bound(t);
    let u = t.skip(lead_ws(t) as int);
    lemma_trail_ws_bound(u);
}

proof fn lemma_trim_unchanged(s: Seq<char>)
    requires
        s.len() > 0,
        !is_ws(s[0]),
        !is_ws(s.last()),
    ensures
        trim(s) == s,
{
    assert(lead_ws(s) == 0);
    assert(s.skip(0) =~= s);
    assert(trail_ws(s) == 0);
    assert(s.take(s.len() as int) =~= s);
}

/// A sanitized component is never empty, holds no forbidden or control
/// character, and sanitizing it again leaves it as it is.
pub proof fn lemma_sanitized_is_settled(s: Seq<char>)
    ensures
        sanitize_spec(s).len() > 0,
        forall|i: int|
            0 <= i < sanitize_spec(s).len() ==> !is_forbidden_in_name(#[trigger] sanitize_spec(s)[i])
                && !is_control(sanitize_spec(s)[i]),
        sanitize_spec(sanitize_spec(s)) == sanitize_spec(s),
{
    reveal_strlit("Unknown");
    let m = s.map_values(|c: char| sanitize_char(c));
    let t = trim(m);
    lemma_trim_ends(m);
    let r = sanitize_spec(s);
    assert forall|i: int| 0 <= i < r.len() implies !is_forbidden_in_name(#[trigger] r[i]) && !is_control(
        r[i],
    ) by {
        if t.len() > 0 {
            assert(r[i] == m[i + lead_ws(m)]);
        }
    }
    assert(r.map_values(|c: char| sanitize_char(c)) =~= r);
    if t.len() == 0 {
        assert(r[0] == 'U' && r.last() == 'n');
    }
    lemma_trim_unchanged(r);
}

/// The folder names of `<artist>/<album>/<file>`: the album is the
/// parent's name, the artist the grandparent's.
pub open spec fn recover_spec(path: Seq<char>) -> Option<(Seq<char>, Seq<char>)> {
    match path_parent_of(path) {
        None => None,
        Some(parent) => match path_file_name_of(parent) {
            None => None,
            Some(album) => match path_parent_of(parent) {
                None => None,
                Some(grand) => match path_file_name_of(grand) {
                    None => None,
                    Some(artist) => Some((artist, album)),
                },
            },
        },
    }
}

/// Recovers (artist, album) from a library path laid out as
/// `<Artist>/<Album>/<Title>.<ext>`.
pub fn recover_artist_album_from_path(path: &str) -> (r: Option<(String, String)>)
    ensures
        r matches Some((a, b)) ==> recover_spec(path@) == Some((a@, b@)),
        r is None ==> recover_spec(path@) is None,
{
    let parent = match path_parent(path) {
        Some(p) => p,
        None => return None,
    };
    let album = match path_file_name(parent.as_str()) {
        Some(a) => a,
        None => return None,
    };
    let grand = match path_parent(parent.as_str()) {
        Some(g) => g,
        None => return None,
    };
    let artist = match path_file_name(grand.as_str()) {
        Some(a) => a,
        None => return None,
    };
    Some((artist, album))
}

} // verus!
