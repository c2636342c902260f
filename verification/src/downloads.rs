//! Where downloaded tracks go and what a download leaves behind: the
//! library path of a track, the playlist file of a playlist, which of the
//! downloader's files are audio, cover art or leftovers, and which library
//! files the repair pass remuxes or retags.
use vstd::prelude::*;
use crate::http::str_eq;
use crate::model::Track;
use crate::paths::{
    extension_of, extension_spec, path_extension, path_extension_of, path_join, path_join_of,
    sanitize_component, sanitize_spec,
};
use crate::strings::{chars_of, push_str_chars, string_from};

verus! {

/// A track that finished downloading, at its final place in the library.
#[derive(Clone, Debug)]
pub struct Downloaded {
    pub path: String,
}

pub open spec fn library_path_spec(
    library_dir: Seq<char>,
    artist: Seq<char>,
    album: Seq<char>,
    title: Seq<char>,
    ext: Seq<char>,
) -> Seq<char> {
    path_join_of(
        path_join_of(path_join_of(library_dir, sanitize_spec(artist)), sanitize_spec(album)),
        sanitize_spec(title) + seq!['.'] + ext,
    )
}

/// `<library>/<Artist>/<Album>/<Title>.<ext>`, each part made safe as a
/// path component.
pub fn library_path(library_dir: &str, artist: &str, album: &str, title: &str, ext: &str) -> (p: String)
    ensures
        p@ == library_path_spec(library_dir@, artist@, album@, title@, ext@),
{
    let a = sanitize_component(artist);
    let b = sanitize_component(album);
    let t = sanitize_component(title);
    let mut file: Vec<char> = chars_of(t.as_str());
    file.push('.');
    push_str_chars(&mut file, ext);
    assert(file@ =~= sanitize_spec(title@) + seq!['.'] + ext@);
    let f = string_from(file.as_slice());
    let d1 = path_join(library_dir, a.as_str());
    let d2 = path_join(d1.as_str(), b.as_str());
    path_join(d2.as_str(), f.as_str())
}

pub open spec fn playlist_file_spec(name: Seq<char>) -> Seq<char> {
    sanitize_spec(name) + ".m3u8"@
}

/// The file a playlist is written to: its name made safe, plus `.m3u8`.
pub fn playlist_file_name(name: &str) -> (f: String)
    ensures
        f@ == playlist_file_spec(name@),
{
    let s = sanitize_component(name);
    let mut v = chars_of(s.as_str());
    push_str_chars(&mut v, ".m3u8");
    string_from(v.as_slice())
}

/// What a file the downloader left behind is.
#[derive(Clone, Copy, Debug, PartialEq, Eq, Structural)]
pub enum DownloadFile {
    /// Cover art (`jpg`, `jpeg`, `png`, `webp`).
    Thumbnail,
    /// Audio in an MP4 container (`m4a`, `mp4`, `m4b`): remux it to ADTS,
    /// or transcode it if that fails.
    Remux,
    /// Audio that plays as it is (`aac`, `mp3`, `flac`, `ogg`, `wav`).
    Audio,
    /// Some other format, while no audio has been found yet: transcode it.
    Transcode,
    /// Nothing to do with it.
    Ignore,
}

pub open spec fn classify_download_spec(ext: Option<Seq<char>>, have_audio: bool) -> DownloadFile {
    match ext {
        Some(e) => if e == "jpg"@ || e == "jpeg"@ || e == "png"@ || e == "webp"@ {
            DownloadFile::Thumbnail
        } else if e == "m4a"@ || e == "mp4"@ || e == "m4b"@ {
            DownloadFile::Remux
        } else if e == "aac"@ || e == "mp3"@ || e == "flac"@ || e == "ogg"@ || e == "wav"@ {
            DownloadFile::Audio
        } else if !have_audio {
            DownloadFile::Transcode
        } else {
            DownloadFile::Ignore
        },
        None => DownloadFile::Ignore,
    }
}

/// What each file the downloader leaves is: cover art (jpg, jpeg, png,
/// webp), MP4-contained audio to remux (m4a, mp4, m4b), audio that plays
/// as it is (aac, mp3, flac, ogg, wav); any other file is transcoded only
/// while no audio has been found, and a file without an extension is
/// ignored.
pub proof fn lemma_download_files(ext: Option<Seq<char>>, have_audio: bool)
    ensures
        (ext == Some("jpg"@) || ext == Some("jpeg"@) || ext == Some("png"@) || ext == Some("webp"@))
            ==> classify_download_spec(ext, have_audio) == DownloadFile::Thumbnail,
        (ext == Some("m4a"@) || ext == Some("mp4"@) || ext == Some("m4b"@)) ==> classify_download_spec(
            ext,
            have_audio,
        ) == DownloadFile::Remux,
        (ext == Some("aac"@) || ext == Some("mp3"@) || ext == Some("flac"@) || ext == Some("ogg"@)
            || ext == Some("wav"@)) ==> classify_download_spec(ext, have_audio) == DownloadFile::Audio,
        ext is None ==> classify_download_spec(ext, have_audio) == DownloadFile::Ignore,
        (ext matches Some(e) && e != "jpg"@ && e != "jpeg"@ && e != "png"@ && e != "webp"@ && e
            != "m4a"@ && e != "mp4"@ && e != "m4b"@ && e != "aac"@ && e != "mp3"@ && e != "flac"@ && e
            != "ogg"@ && e != "wav"@) ==> classify_download_spec(ext, have_audio) == if have_audio {
            DownloadFile::Ignore
        } else {
            DownloadFile::Transcode
        },
{
    reveal_strlit("jpg");
    reveal_strlit("jpeg");
    reveal_strlit("png");
    reveal_strlit("webp");
    reveal_strlit("m4a");
    reveal_strlit("mp4");
    reveal_strlit("m4b");
    reveal_strlit("aac");
    reveal_strlit("mp3");
    reveal_strlit("flac");
    reveal_strlit("ogg");
    reveal_strlit("wav");
    if let Some(e) = ext {
        if e == "jpg"@ {
            assert(e.len() == 3 && e[0] == 'j' && e[1] == 'p' && e[2] == 'g');
        }
        if e == "jpeg"@ {
            assert(e.len() == 4 && e[0] == 'j' && e[1] == 'p' && e[2] == 'e' && e[3] == 'g');
        }
        if e == "png"@ {
            assert(e.len() == 3 && e[0] == 'p' && e[1] == 'n' && e[2] == 'g');
        }
        if e == "webp"@ {
            assert(e.len() == 4 && e[0] == 'w' && e[1] == 'e' && e[2] == 'b' && e[3] == 'p');
        }
        if e == "m4a"@ {
            assert(e.len() == 3 && e[0] == 'm' && e[1] == '4' && e[2] == 'a');
        }
        if e == "mp4"@ {
            assert(e.len() == 3 && e[0] == 'm' && e[1] == 'p' && e[2] == '4');
        }
        if e == "m4b"@ {
            assert(e.len() == 3 && e[0] == 'm' && e[1] == '4' && e[2] == 'b');
        }
        if e == "aac"@ {
            assert(e.len() == 3 && e[0] == 'a' && e[1] == 'a' && e[2] == 'c');
        }
        if e == "mp3"@ {
            assert(e.len() == 3 && e[0] == 'm' && e[1] == 'p' && e[2] == '3');
        }
        if e == "flac"@ {
            assert(e.len() == 4 && e[0] == 'f' && e[1] == 'l' && e[2] == 'a' && e[3] == 'c');
        }
        if e == "ogg"@ {
            assert(e.len() == 3 && e[0] == 'o' && e[1] == 'g' && e[2] == 'g');
        }
        if e == "wav"@ {
            assert(e.len() == 3 && e[0] == 'w' && e[1] == 'a' && e[2] == 'v');
        }
    }
}

/// The repair pass remuxes MP4-contained files (m4a, mp4, m4b, in any
/// case), retags `.aac` files, and leaves every other file alone.
pub proof fn lemma_repair_kinds(path: Seq<char>)
    ensures
        (extension_spec(path) == "m4a"@ || extension_spec(path) == "mp4"@ || extension_spec(path)
            == "m4b"@) ==> repair_kind_spec(path) == RepairKind::Remux,
        extension_spec(path) == "aac"@ ==> repair_kind_spec(path) == RepairKind::Retag,
        (extension_spec(path) != "m4a"@ && extension_spec(path) != "mp4"@ && extension_spec(path)
            != "m4b"@ && extension_spec(path) != "aac"@) ==> repair_kind_spec(path) == RepairKind::Skip,
{
    reveal_strlit("m4a");
    reveal_strlit("mp4");
    reveal_strlit("m4b");
    reveal_strlit("aac");
    let e = extension_spec(path);
    if e == "m4a"@ {
        assert(e.len() == 3 && e[0] == 'm' && e[1] == '4' && e[2] == 'a');
    }
    if e == "mp4"@ {
        assert(e.len() == 3 && e[0] == 'm' && e[1] == 'p' && e[2] == '4');
    }
    if e == "m4b"@ {
        assert(e.len() == 3 && e[0] == 'm' && e[1] == '4' && e[2] == 'b');
    }
    if e == "aac"@ {
        assert(e.len() == 3 && e[0] == 'a' && e[1] == 'a' && e[2] == 'c');
    }
}

/// Sorts a file the downloader wrote by its extension (as written, case
/// included); `have_audio` tells whether an audio file was already found.
pub fn classify_download(path: &str, have_audio: bool) -> (k: DownloadFile)
    ensures
        k == classify_download_spec(path_extension_of(path@), have_audio),
{
    match path_extension(path) {
        Some(e) => {
            let e = e.as_str();
            if str_eq(e, "jpg") || str_eq(e, "jpeg") || str_eq(e, "png") || str_eq(e, "webp") {
                DownloadFile::Thumbnail
            } else if str_eq(e, "m4a") || str_eq(e, "mp4") || str_eq(e, "m4b") {
                DownloadFile::Remux
            } else if str_eq(e, "aac") || str_eq(e, "mp3") || str_eq(e, "flac") || str_eq(e, "ogg")
                || str_eq(e, "wav") {
                DownloadFile::Audio
            } else if !have_audio {
                DownloadFile::Transcode
            } else {
                DownloadFile::Ignore
            }
        },
        None => DownloadFile::Ignore,
    }
}

pub open spec fn audio_extension_spec(path: Seq<char>) -> Seq<char> {
    match path_extension_of(path) {
        Some(e) => e,
        None => "m4a"@,
    }
}

/// The extension the downloaded audio keeps in the library (`m4a` when
/// the file has none).
pub fn audio_extension(path: &str) -> (e: String)
    ensures
        e@ == audio_extension_spec(path@),
{
    match path_extension(path) {
        Some(e) => e,
        None => String::from_str("m4a"),
    }
}

/// A track whose artist or album is the scanner's placeholder, so the
/// repair pass recovers them from the folders the file sits in.
pub open spec fn needs_recovery_spec(t: Track) -> bool {
    t.artist@ == "Unknown Artist"@ || t.album@ == "Unknown Album"@
}

pub fn needs_recovery(t: &Track) -> (b: bool)
    ensures
        b == needs_recovery_spec(*t),
{
    str_eq(t.artist.as_str(), "Unknown Artist") || str_eq(t.album.as_str(), "Unknown Album")
}

/// What the repair pass does with a library file.
#[derive(Clone, Copy, Debug, PartialEq, Eq, Structural)]
pub enum RepairKind {
    /// MP4-contained audio: remux it to ADTS `.aac` and retag it.
    Remux,
    /// Already `.aac`: write the library's tags into it again.
    Retag,
    /// Leave it.
    Skip,
}

pub open spec fn repair_kind_spec(path: Seq<char>) -> RepairKind {
    let e = extension_spec(path);
    if e == "m4a"@ || e == "mp4"@ || e == "m4b"@ {
        RepairKind::Remux
    } else if e == "aac"@ {
        RepairKind::Retag
    } else {
        RepairKind::Skip
    }
}

/// Chooses by the file's extension, in any case.
pub fn repair_kind(path: &str) -> (k: RepairKind)
    ensures
        k == repair_kind_spec(path@),
{
    let e = extension_of(path);
    let e = e.as_str();
    if str_eq(e, "m4a") || str_eq(e, "mp4") || str_eq(e, "m4b") {
        RepairKind::Remux
    } else if str_eq(e, "aac") {
        RepairKind::Retag
    } else {
        RepairKind::Skip
    }
}

} // verus!
