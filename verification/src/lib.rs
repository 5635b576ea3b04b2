//! Lyrics export: the decisions and text computations behind writing lyrics
//! to sidecar files (`.txt`, `.lrc`, `.elrc`) and into audio-file metadata.

pub mod text;
pub mod path;
pub mod lyricsfile;
pub mod export;
