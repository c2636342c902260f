# melodie

A small, private music player: library scan, playback queue, `.m3u8`
playlists, SpotiSync (Exportify CSV in, yt-dlp matches and downloads out),
and a read-only LAN Subsonic server with QR pairing.

## Layout

- `src/` — the library, written in Verus. The player's decisions are
  here with their contracts: the playback queue (`player`), the Subsonic
  request handling (`http`, `auth`, `subsonic`, `catalog`, `xml`, `ids`),
  the scan and playlist rules (`library`, `playlist`, `paths`), SpotiSync's
  bookkeeping (`exportify`, `matcher`, `jobs`, `downloads`), bind safety
  (`net`), pairing (`pairing`), and the track list's interaction state
  (`tracklist`, `view`). Properties that span calls are public proof
  functions named `lemma_*`.
- `tests/` — tests of the library.
- `app/` — the program around it: the window (fltk), audio output (rodio),
  media keys (souvlaki), SQLite (rusqlite, including the order in which
  queued jobs run and how duplicates are collapsed), the HTTP server
  (tiny_http), reading the bind address as an IP (`std::net`), file and
  process I/O, and the floating-point scoring and seeking.
