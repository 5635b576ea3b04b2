use std::path::Path;
use lyrics_export::export::elrc::{export_elrc, generate_elrc_content};
use lyrics_export::export::embedded::{
    complete_embed_export, embed_lyrics, export_embedded, id3_lyrics_edits, relabel_comments,
    sylt_frame_of, synced_lyrics_to_sylt_vec, vorbis_lyrics_edits, EmbedPlan, EmbedTarget,
    FrameEdit, LanguageFrame, TimedLine,
};
use lyrics_export::export::lrc::{export_lrc, generate_lrc_content};
use lyrics_export::export::txt::{export_txt, generate_txt_content};
use lyrics_export::export::{
    build_sidecar_path, complete_sidecar_export, export_track, export_track_format, ExportAction,
    ExportError, ExportFormat, ExportResult, ExportStatus,
};
use lyrics_export::lyricsfile::{ParsedLyricsfile, PersistentTrack, INSTRUMENTAL_LRC};

fn lyrics(plain: Option<&str>, synced: Option<&str>, word: Option<&str>, instrumental: bool) -> ParsedLyricsfile {
    ParsedLyricsfile {
        plain_lyrics: plain.map(|s| s.to_string()),
        synced_lyrics: synced.map(|s| s.to_string()),
        word_synced_lyrics: word.map(|s| s.to_string()),
        is_instrumental: instrumental,
    }
}

fn track(path: &str) -> PersistentTrack {
    PersistentTrack { file_path: path.to_string() }
}

#[test]
fn blank_lyrics_are_not_exported() {
    let parsed = lyrics(Some(" \t\n\u{3000}\u{a0}"), Some(""), Some("\u{2028}"), false);
    assert_eq!(generate_txt_content(&parsed), None);
    assert_eq!(generate_lrc_content(&parsed), None);
    assert_eq!(generate_elrc_content(&parsed), None);
    // A character that is not white space keeps the text.
    let kept = lyrics(Some(" \u{200b} "), None, None, false);
    assert_eq!(generate_txt_content(&kept), Some(" \u{200b} ".to_string()));
}

#[test]
fn instrumental_tracks_export_the_marker() {
    let parsed = lyrics(Some("words"), Some("[00:01.00]x"), Some("[00:01.000]<00:01.000>x"), true);
    assert_eq!(generate_txt_content(&parsed), None);
    assert_eq!(generate_lrc_content(&parsed), Some(INSTRUMENTAL_LRC.to_string()));
    assert_eq!(generate_elrc_content(&parsed), Some("[au: instrumental]".to_string()));
}

#[test]
fn sidecar_path_errors() {
    assert_eq!(
        build_sidecar_path("/", "txt"),
        Err(ExportError::PathBuildError("Track has no parent directory".to_string()))
    );
    assert_eq!(
        build_sidecar_path("", "txt"),
        Err(ExportError::PathBuildError("Track has no parent directory".to_string()))
    );
    assert_eq!(
        build_sidecar_path("/music/..", "txt"),
        Err(ExportError::PathBuildError("Invalid track filename".to_string()))
    );
    assert_eq!(
        build_sidecar_path(".", "lrc"),
        Err(ExportError::PathBuildError("Invalid track filename".to_string()))
    );
}

#[test]
fn sidecar_path_edge_cases() {
    assert_eq!(build_sidecar_path("song.mp3", "lrc"), Ok("song.lrc".to_string()));
    assert_eq!(build_sidecar_path("/song.mp3", "lrc"), Ok("/song.lrc".to_string()));
    assert_eq!(build_sidecar_path("./song.mp3", "lrc"), Ok("./song.lrc".to_string()));
    assert_eq!(build_sidecar_path("a//b/./song.tar.gz/", "txt"), Ok("a//b/song.tar.txt".to_string()));
    assert_eq!(build_sidecar_path("/m/.hidden", "txt"), Ok("/m/.hidden.txt".to_string()));
    assert_eq!(build_sidecar_path("/m/Björk/Jóga.flac", "elrc"), Ok("/m/Björk/Jóga.elrc".to_string()));
}

#[test]
fn sidecar_keeps_directory_and_stem() {
    for p in ["/music/a/b.mp3", "b.mp3", "./b.mp3", "/b.mp3", "x//y/./b.c.mp3", "../b"] {
        for ext in ["txt", "lrc", "elrc"] {
            let q = build_sidecar_path(p, ext).unwrap();
            assert_eq!(Path::new(&q).parent(), Path::new(p).parent());
            assert_eq!(Path::new(&q).file_stem(), Path::new(p).file_stem());
            assert_eq!(Path::new(&q).extension().unwrap().to_str().unwrap(), ext);
            // The sidecar of a sidecar is the track's sidecar.
            assert_eq!(build_sidecar_path(&q, "lrc"), build_sidecar_path(p, "lrc"));
        }
    }
}

#[test]
fn sidecar_directory_with_separators_in_extension() {
    let p = "/music/a/song.mp3";
    for ext in ["x/", "/", "x/.", "x//./", ""] {
        let q = build_sidecar_path(p, ext).unwrap();
        assert_eq!(Path::new(&q).parent(), Path::new(p).parent(), "{:?}", ext);
    }
    // A segment past the separator moves the sidecar into a subdirectory.
    let q = build_sidecar_path(p, "x/y").unwrap();
    assert_eq!(q, "/music/a/song.x/y");
    assert_ne!(Path::new(&q).parent(), Path::new(p).parent());
    // The part before the separator is the sidecar's extension.
    let q = build_sidecar_path(p, "lrc/").unwrap();
    assert_eq!(Path::new(&q).extension().unwrap(), "lrc");
    assert_eq!(Path::new(&q).file_stem().unwrap(), "song");
}

#[test]
fn sidecar_path_matches_std_composition() {
    let samples = ["/music/artist/album/song.mp3", "x", "./x.y", "/a/b/", "a/..", "/", "", "..x", "a/.b.c"];
    for p in samples {
        for ext in ["txt", "lrc", "elrc", "", "a.b"] {
            let path = Path::new(p);
            let expected = match path.parent() {
                None => Err(ExportError::PathBuildError("Track has no parent directory".to_string())),
                Some(parent) => match path.file_stem().and_then(|s| s.to_str()) {
                    None => Err(ExportError::PathBuildError("Invalid track filename".to_string())),
                    Some(stem) => Ok(parent.join(format!("{}.{}", stem, ext)).to_str().unwrap().to_string()),
                },
            };
            assert_eq!(build_sidecar_path(p, ext), expected, "{:?} {:?}", p, ext);
        }
    }
}

#[test]
fn txt_export_plan() {
    let parsed = lyrics(Some("Line 1\nLine 2"), None, None, false);
    match export_txt(&track("/m/a/song.mp3"), &parsed) {
        Ok(ExportAction::WriteSidecar { format, path, content, stale }) => {
            assert_eq!(format, ExportFormat::Txt);
            assert_eq!(path, "/m/a/song.txt");
            assert_eq!(content, "Line 1\nLine 2");
            assert_eq!(stale, vec!["/m/a/song.lrc".to_string(), "/m/a/song.elrc".to_string()]);
        }
        _ => panic!("expected a sidecar write"),
    }
}

#[test]
fn lrc_and_elrc_export_plans() {
    let parsed = lyrics(None, Some("[00:01.00]a"), Some("[00:01.000]<00:01.000>a"), false);
    match export_lrc(&track("dir/song.flac"), &parsed) {
        Ok(ExportAction::WriteSidecar { format, path, content, stale }) => {
            assert_eq!(format, ExportFormat::Lrc);
            assert_eq!(path, "dir/song.lrc");
            assert_eq!(content, "[00:01.00]a");
            assert_eq!(stale, vec!["dir/song.txt".to_string(), "dir/song.elrc".to_string()]);
        }
        _ => panic!("expected a sidecar write"),
    }
    match export_elrc(&track("dir/song.flac"), &parsed) {
        Ok(ExportAction::WriteSidecar { format, path, content, stale }) => {
            assert_eq!(format, ExportFormat::Elrc);
            assert_eq!(path, "dir/song.elrc");
            assert_eq!(content, "[00:01.000]<00:01.000>a");
            assert_eq!(stale, vec!["dir/song.txt".to_string(), "dir/song.lrc".to_string()]);
        }
        _ => panic!("expected a sidecar write"),
    }
}

#[test]
fn skipped_exports() {
    let parsed = lyrics(None, None, None, false);
    // No content: skipped, even where no sidecar path could be built.
    for (format, message) in [
        (ExportFormat::Txt, "no plain lyrics available"),
        (ExportFormat::Lrc, "no synced lyrics available"),
        (ExportFormat::Elrc, "no word-synced lyrics available"),
    ] {
        match export_track_format(&track("/"), &parsed, format) {
            Ok(ExportAction::Done(res)) => assert_eq!(
                res,
                ExportResult { format, path: None, status: ExportStatus::Skipped(message.to_string()) }
            ),
            _ => panic!("expected a skipped export"),
        }
    }
}

#[test]
fn sidecar_export_path_error() {
    let parsed = lyrics(Some("words"), None, None, false);
    match export_txt(&track("/"), &parsed) {
        Err(e) => assert_eq!(e, ExportError::PathBuildError("Track has no parent directory".to_string())),
        _ => panic!("expected an error"),
    }
}

#[test]
fn completing_exports() {
    assert_eq!(
        complete_sidecar_export(ExportFormat::Lrc, "/a/b.lrc".to_string(), Ok(())),
        Ok(ExportResult { format: ExportFormat::Lrc, path: Some("/a/b.lrc".to_string()), status: ExportStatus::Success })
    );
    assert_eq!(
        complete_sidecar_export(ExportFormat::Lrc, "/a/b.lrc".to_string(), Err("disk full".to_string())),
        Err(ExportError::WriteError("disk full".to_string()))
    );
    assert_eq!(
        complete_embed_export("/a/b.mp3".to_string(), Ok(())),
        Ok(ExportResult { format: ExportFormat::Embedded, path: Some("/a/b.mp3".to_string()), status: ExportStatus::Success })
    );
    assert_eq!(
        complete_embed_export("/a/b.mp3".to_string(), Err("bad tag".to_string())),
        Err(ExportError::EmbedError("bad tag".to_string()))
    );
}

#[test]
fn error_messages() {
    assert_eq!(ExportError::PathBuildError("x".to_string()).to_string(), "Failed to build export path: x");
    assert_eq!(ExportError::WriteError("y".to_string()).to_string(), "Failed to write file: y");
    assert_eq!(ExportError::EmbedError("z".to_string()).to_string(), "Failed to embed lyrics: z");
}

#[test]
fn export_track_keeps_order_and_reports_errors() {
    let formats = [ExportFormat::Txt, ExportFormat::Lrc, ExportFormat::Embedded];
    let ok = ExportResult { format: ExportFormat::Txt, path: Some("/a/b.txt".to_string()), status: ExportStatus::Success };
    let skipped = ExportResult { format: ExportFormat::Lrc, path: None, status: ExportStatus::Skipped("no synced lyrics available".to_string()) };
    let results = export_track(
        &formats,
        vec![Ok(ok.clone()), Ok(skipped.clone()), Err(ExportError::EmbedError("oops".to_string()))],
    );
    assert_eq!(results.len(), 3);
    assert_eq!(results[0], ok);
    assert_eq!(results[1], skipped);
    assert_eq!(
        results[2],
        ExportResult {
            format: ExportFormat::Embedded,
            path: None,
            status: ExportStatus::Error("Failed to embed lyrics: oops".to_string()),
        }
    );
    assert!(export_track(&[], vec![]).is_empty());
}

#[test]
fn embed_plans() {
    let plan = embed_lyrics("/m/Song.MP3", "plain", "").unwrap();
    assert_eq!(plan.target, EmbedTarget::Mp3);
    assert_eq!(plan.unsynced_lyrics, Some("plain".to_string()));
    assert_eq!(plan.synced_lyrics, None);
    let plan = embed_lyrics("/m/song.FlAc", "", "[00:01.00]a").unwrap();
    assert_eq!(plan.target, EmbedTarget::Flac);
    assert_eq!(plan.unsynced_lyrics, None);
    assert_eq!(plan.synced_lyrics, Some("[00:01.00]a".to_string()));
    assert!(embed_lyrics("/music/artist/album/song.ogg", "Line 1", "[00:12.00]Line 1").is_none());
    assert!(embed_lyrics("mp3", "a", "b").is_none());
    assert!(embed_lyrics("/m/song.mp3/", "a", "b").is_none());
}

#[test]
fn embed_target_agrees_with_lowercase_suffix() {
    let samples = [
        "a.mp3", "a.MP3", "a.Mp3", ".mp3", "mp3", "a.mp", "a.flac", "a.FLAC", "a.fLaC", "a.flac ",
        "a.\u{212a}mp3", "\u{130}.mp3", "x.\u{130}mp3", "a.ṁp3", "", "a.mp4", "ß.flac",
    ];
    for s in samples {
        let lower = s.to_lowercase();
        let expected = if lower.ends_with(".mp3") {
            Some(EmbedTarget::Mp3)
        } else if lower.ends_with(".flac") {
            Some(EmbedTarget::Flac)
        } else {
            None
        };
        assert_eq!(embed_lyrics(s, "", "").map(|p| p.target), expected, "{:?}", s);
    }
}

#[test]
fn embedded_export_plan() {
    let parsed = lyrics(None, None, None, true);
    match export_embedded(&track("/m/song.mp3"), &parsed) {
        ExportAction::Embed { track_path, plan } => {
            assert_eq!(track_path, "/m/song.mp3");
            assert_eq!(plan.target, EmbedTarget::Mp3);
            assert_eq!(plan.unsynced_lyrics, None);
            assert_eq!(plan.synced_lyrics, Some("[au: instrumental]".to_string()));
        }
        _ => panic!("expected an embed action"),
    }
    let parsed = lyrics(Some("p"), Some("[00:02.00]s"), None, false);
    match export_track_format(&track("/m/song.Flac"), &parsed, ExportFormat::Embedded) {
        Ok(ExportAction::Embed { track_path, plan }) => {
            assert_eq!(track_path, "/m/song.Flac");
            assert_eq!(plan.target, EmbedTarget::Flac);
            assert_eq!(plan.unsynced_lyrics, Some("p".to_string()));
            assert_eq!(plan.synced_lyrics, Some("[00:02.00]s".to_string()));
        }
        _ => panic!("expected an embed action"),
    }
}

#[test]
fn unsupported_files_succeed_untouched() {
    let parsed = lyrics(Some("Line 1"), Some("[00:12.00]Line 1"), None, false);
    let ok = |p: &str| ExportResult { format: ExportFormat::Embedded, path: Some(p.to_string()), status: ExportStatus::Success };
    match export_embedded(&track("/music/artist/album/song.ogg"), &parsed) {
        ExportAction::Done(res) => assert_eq!(res, ok("/music/artist/album/song.ogg")),
        _ => panic!("expected a finished export"),
    }
    // An empty track path: the text export fails, embedding still succeeds.
    let parsed = lyrics(Some("Line 1"), None, None, false);
    let formats = [ExportFormat::Txt, ExportFormat::Embedded];
    let outcomes: Vec<_> = formats
        .iter()
        .map(|f| match export_track_format(&track(""), &parsed, *f) {
            Ok(ExportAction::Done(res)) => Ok(res),
            Err(e) => Err(e),
            _ => panic!("no file work expected"),
        })
        .collect();
    assert_eq!(
        export_track(&formats, outcomes),
        vec![
            ExportResult {
                format: ExportFormat::Txt,
                path: None,
                status: ExportStatus::Error("Failed to build export path: Track has no parent directory".to_string()),
            },
            ok(""),
        ]
    );
}

fn sylt_expected(lines: &[(u32, &str)]) -> Vec<u8> {
    let mut b = vec![3u8, b'X', b'X', b'X', 2, 1, 0];
    for (t, text) in lines {
        b.extend_from_slice(text.as_bytes());
        b.push(0);
        b.extend_from_slice(&t.to_be_bytes());
    }
    b
}

#[test]
fn sylt_frame_bytes() {
    let lines = vec![
        TimedLine { timestamp_ms: 12_000, text: "Line 1".to_string() },
        TimedLine { timestamp_ms: 0x0102_0304, text: "Jóga".to_string() },
    ];
    assert_eq!(sylt_frame_of(&lines), Some(sylt_expected(&[(12_000, "Line 1"), (0x0102_0304, "Jóga")])));
    assert_eq!(sylt_frame_of(&vec![]), Some(vec![3u8, b'X', b'X', b'X', 2, 1, 0]));
}

fn frame(encoding: u8, language: &[u8; 3], description: &str, content: &str) -> LanguageFrame {
    LanguageFrame {
        encoding,
        language: *language,
        description: description.to_string(),
        content: content.to_string(),
    }
}

#[test]
fn comments_are_relabelled() {
    let r = relabel_comments(vec![frame(0, b"eng", "d", "c"), frame(1, b"deu", "", "x")]);
    assert_eq!(r.len(), 2);
    assert_eq!((r[0].encoding, r[0].language, r[0].description.as_str(), r[0].content.as_str()), (0, *b"XXX", "d", "c"));
    assert_eq!((r[1].encoding, r[1].language, r[1].description.as_str(), r[1].content.as_str()), (1, *b"XXX", "", "x"));
}

#[test]
fn id3_edits_store_and_remove() {
    let plan = EmbedPlan { target: EmbedTarget::Mp3, unsynced_lyrics: Some("words".to_string()), synced_lyrics: Some("[00:01.00]a".to_string()) };
    let lines = vec![TimedLine { timestamp_ms: 1000, text: "a".to_string() }];
    let edits = id3_lyrics_edits(vec![frame(3, b"eng", "note", "hi")], &plan, &lines).unwrap();
    assert_eq!(edits.len(), 3);
    match &edits[0] {
        FrameEdit::Comment(f) => assert_eq!((f.encoding, f.language, f.description.as_str(), f.content.as_str()), (3, *b"XXX", "note", "hi")),
        _ => panic!("expected a comment"),
    }
    match &edits[1] {
        FrameEdit::UnsyncedLyrics(f) => assert_eq!((f.encoding, f.language, f.description.as_str(), f.content.as_str()), (3, *b"XXX", "", "words")),
        _ => panic!("expected USLT"),
    }
    match &edits[2] {
        FrameEdit::Binary { id, body } => {
            assert_eq!(id, "SYLT");
            assert_eq!(body, &sylt_expected(&[(1000, "a")]));
        }
        _ => panic!("expected SYLT"),
    }
    let plan = EmbedPlan { target: EmbedTarget::Mp3, unsynced_lyrics: None, synced_lyrics: None };
    let edits = id3_lyrics_edits(vec![], &plan, &vec![]).unwrap();
    assert_eq!(edits.len(), 2);
    assert!(matches!(&edits[0], FrameEdit::Remove { id } if id == "USLT"));
    assert!(matches!(&edits[1], FrameEdit::Remove { id } if id == "SYLT"));
}

#[test]
fn vorbis_edits() {
    let plan = EmbedPlan { target: EmbedTarget::Flac, unsynced_lyrics: Some("p".to_string()), synced_lyrics: None };
    let edits = vorbis_lyrics_edits(&plan);
    assert_eq!(edits.len(), 2);
    assert_eq!((edits[0].key.as_str(), edits[0].value.clone()), ("UNSYNCEDLYRICS", Some("p".to_string())));
    assert_eq!((edits[1].key.as_str(), edits[1].value.clone()), ("LYRICS", None));
}

#[test]
fn sylt_content() {
    let lines = vec![
        TimedLine { timestamp_ms: 12_000, text: "Line 1".to_string() },
        TimedLine { timestamp_ms: (1u64 << 32) + 5, text: "late".to_string() },
    ];
    assert_eq!(
        synced_lyrics_to_sylt_vec(&lines),
        vec![(12_000u32, "Line 1".to_string()), (5u32, "late".to_string())]
    );
    assert!(synced_lyrics_to_sylt_vec(&vec![]).is_empty());
}
