# lyrics_export

Exporting the lyrics of a music track: to sidecar files next to the audio
file (`.txt` plain lyrics, `.lrc` synced lyrics, `.elrc` word-synced lyrics)
and into the audio file's own tags (MP3 ID3v2, FLAC Vorbis comments).

- `src/` is the verified library (Verus). It decides what each export
  does: which text goes out, the sidecar path (with the meaning
  `std::path::Path` gives paths on Unix), which conflicting sidecars are
  removed, which ID3v2 frames (the comments relabelled, USLT, and the SYLT
  frame's bytes, encoded by `lofty`) and which Vorbis comments
  (`UNSYNCEDLYRICS`, `LYRICS`) are set or removed, and the result recorded
  for each format once the file work has been done.
  - `text`: characters of strings, white space, case-insensitive suffixes.
  - `path`: parent, file name, stem, extension and join of a path as on
    Unix (`/` separates; `\` is an ordinary character), with
    the lemmas on renaming a file within its directory.
  - `lyricsfile`: the parsed lyrics of a track.
  - `export`: the export plans, their completion, and the laws on sidecars.
- `app/` does the file work: removing and writing sidecars, reading and
  saving audio files with `lofty` and applying the library's tag edits, and
  the serde/thiserror forms of the result types. The LRC parser is the
  calling application's, handed in as a function.
- `tests/` runs the library, and checks the path and white-space functions
  against the standard library.
