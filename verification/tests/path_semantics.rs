//! The path functions agree with `std::path::Path` on Unix.

use lyrics_export::path::{file_name_of, file_stem_of, join_of, parent_of};
use std::path::Path;

const SAMPLES: &[&str] = &[
    "",
    "/",
    "//",
    "///",
    "/.",
    "/./",
    "/..",
    ".",
    "./",
    "./.",
    "..",
    "../",
    "a",
    "a/",
    "a//",
    "a/.",
    "a/./",
    "a/..",
    "./a",
    "./a/",
    ".//a",
    "../a",
    "/a",
    "/a/",
    "//a",
    "/a/b",
    "/a//b",
    "/a/./b",
    "/a/b/.",
    "/a/b/./",
    "/a/b//",
    "/a/./b/./",
    "a/b/c.mp3",
    "/music/artist/album/song.mp3",
    "/music/artist/album/song.tar.gz",
    "/music/.hidden",
    "/music/.hidden.mp3",
    "/music/..x",
    "/music/x.",
    "/music/.",
    "song",
    "song.mp3",
    ".mp3",
    "..mp3",
    "./song.flac",
    "../song.flac",
    "/music/Björk/Jóga.FLAC",
    "/música/たいとる.mp3",
    "a/b/../c.ogg",
    "./.",
    "/./a",
    "x/./.",
];

#[test]
fn parent_matches_std() {
    for p in SAMPLES {
        let expected = Path::new(p).parent().map(|q| q.to_str().unwrap().to_string());
        assert_eq!(parent_of(p), expected, "parent of {:?}", p);
    }
}

#[test]
fn file_name_matches_std() {
    for p in SAMPLES {
        let expected = Path::new(p).file_name().map(|q| q.to_str().unwrap().to_string());
        assert_eq!(file_name_of(p), expected, "file name of {:?}", p);
    }
}

#[test]
fn file_stem_matches_std() {
    for p in SAMPLES {
        let expected = Path::new(p).file_stem().map(|q| q.to_str().unwrap().to_string());
        assert_eq!(file_stem_of(p), expected, "file stem of {:?}", p);
    }
}

#[test]
fn join_matches_std() {
    let rels = ["song.txt", "/abs", "", "x/y", ".lrc", "a.b.c"];
    for base in SAMPLES {
        for rel in rels {
            let expected = Path::new(base).join(rel).to_str().unwrap().to_string();
            assert_eq!(join_of(base, rel), expected, "{:?} joined with {:?}", base, rel);
        }
    }
}
