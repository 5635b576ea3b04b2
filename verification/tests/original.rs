use lyrics_export::export::build_sidecar_path;
use lyrics_export::export::elrc::generate_elrc_content;
use lyrics_export::export::lrc::generate_lrc_content;
use lyrics_export::export::txt::generate_txt_content;
use lyrics_export::lyricsfile::ParsedLyricsfile;

#[test]
fn test_generate_elrc_content() {
    let parsed = ParsedLyricsfile {
        plain_lyrics: None,
        synced_lyrics: Some("[00:12.00]Line 1".to_string()),
        word_synced_lyrics: Some("[00:12.000]<00:12.000>Line 1".to_string()),
        is_instrumental: false,
    };

    let content = generate_elrc_content(&parsed);
    assert_eq!(content, Some("[00:12.000]<00:12.000>Line 1".to_string()));

    let no_word_sync = ParsedLyricsfile {
        plain_lyrics: None,
        synced_lyrics: Some("[00:12.00]Line 1".to_string()),
        word_synced_lyrics: None,
        is_instrumental: false,
    };
    assert_eq!(generate_elrc_content(&no_word_sync), None);
}

#[test]
fn test_generate_lrc_content() {
    let parsed = ParsedLyricsfile {
        plain_lyrics: None,
        synced_lyrics: Some("[00:12.00]Line 1".to_string()),
        word_synced_lyrics: None,
        is_instrumental: false,
    };

    let content = generate_lrc_content(&parsed);
    assert_eq!(content, Some("[00:12.00]Line 1".to_string()));

    let instrumental = ParsedLyricsfile {
        plain_lyrics: None,
        synced_lyrics: None,
        word_synced_lyrics: None,
        is_instrumental: true,
    };
    assert_eq!(
        generate_lrc_content(&instrumental),
        Some("[au: instrumental]".to_string())
    );
}

#[test]
fn test_build_sidecar_path() {
    let track_path = "/music/artist/album/song.mp3";
    let txt_path = build_sidecar_path(track_path, "txt").unwrap();
    assert_eq!(txt_path.as_str(), "/music/artist/album/song.txt");

    let lrc_path = build_sidecar_path(track_path, "lrc").unwrap();
    assert_eq!(lrc_path.as_str(), "/music/artist/album/song.lrc");

    let elrc_path = build_sidecar_path(track_path, "elrc").unwrap();
    assert_eq!(elrc_path.as_str(), "/music/artist/album/song.elrc");
}

#[test]
fn test_generate_txt_content() {
    let parsed = ParsedLyricsfile {
        plain_lyrics: Some("Line 1\nLine 2".to_string()),
        synced_lyrics: None,
        word_synced_lyrics: None,
        is_instrumental: false,
    };

    let content = generate_txt_content(&parsed);
    assert_eq!(content, Some("Line 1\nLine 2".to_string()));

    let instrumental = ParsedLyricsfile {
        plain_lyrics: None,
        synced_lyrics: None,
        word_synced_lyrics: None,
        is_instrumental: true,
    };
    assert_eq!(generate_txt_content(&instrumental), None);
}
