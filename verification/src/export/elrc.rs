use vstd::prelude::*;
use crate::lyricsfile::{ParsedLyricsfile, PersistentTrack, INSTRUMENTAL_LRC, usable_text, usable_text_of};
use crate::text::{opt_view, owned, is_blank};
use super::{ExportAction, ExportError, ExportFormat, plans_sidecar_export, sidecar_export, law_sidecar_export_spares_target, ResultView, StatusView};

verus! {

/// The content of the `.elrc` sidecar: the instrumental marker for an
/// instrumental track, else the word-synced lyrics, when present and not blank.
pub open spec fn elrc_content(parsed: ParsedLyricsfile) -> Option<Seq<char>> {
    if parsed.is_instrumental {
        Some(INSTRUMENTAL_LRC@)
    } else {
        usable_text(parsed.word_synced_lyrics)
    }
}

/// `r` plans the export of the `.elrc` sidecar.
pub open spec fn plans_elrc_export(
    r: Result<ExportAction, ExportError>,
    track: PersistentTrack,
    parsed: ParsedLyricsfile,
) -> bool {
    plans_sidecar_export(
        r,
        track.file_path@,
        elrc_content(parsed),
        ExportFormat::Elrc,
        "elrc"@,
        ("txt"@, "lrc"@),
        "no word-synced lyrics available"@,
    )
}

pub fn generate_elrc_content(parsed: &ParsedLyricsfile) -> (r: Option<String>)
    ensures
        opt_view(r) == elrc_content(*parsed),
{
    if parsed.is_instrumental {
        return Some(owned(INSTRUMENTAL_LRC));
    }
    usable_text_of(&parsed.word_synced_lyrics)
}

/// Plans the export of the `.elrc` sidecar; the `.txt` and `.lrc` sidecars
/// are removed so that only one sidecar representation is kept.
pub fn export_elrc(track: &PersistentTrack, parsed: &ParsedLyricsfile) -> (r: Result<
    ExportAction,
    ExportError,
>)
    ensures
        plans_elrc_export(r, *track, *parsed),
{
    sidecar_export(
        track.file_path.as_str(),
        generate_elrc_content(parsed),
        ExportFormat::Elrc,
        "elrc",
        ("txt", "lrc"),
        "no word-synced lyrics available",
    )
}


/// Exporting the `.elrc` sidecar never removes the `.elrc` file it writes.
pub proof fn law_elrc_export_spares_its_file(
    r: Result<ExportAction, ExportError>,
    track: PersistentTrack,
    parsed: ParsedLyricsfile,
)
    requires
        plans_elrc_export(r, track, parsed),
    ensures
        r matches Ok(ExportAction::WriteSidecar { path, stale, .. }) ==> stale@[0]@ != path@
            && stale@[1]@ != path@,
{
    reveal_strlit("elrc");
    reveal_strlit("txt");
    reveal_strlit("lrc");
    assert("elrc"@ != "txt"@ && "elrc"@ != "lrc"@) by {
        assert("elrc"@[0] != "txt"@[0] || "elrc"@.len() != "txt"@.len());
        assert("elrc"@[0] != "lrc"@[0] || "elrc"@.len() != "lrc"@.len());
    }
    law_sidecar_export_spares_target(
        r,
        track.file_path@,
        elrc_content(parsed),
        ExportFormat::Elrc,
        "elrc"@,
        ("txt"@, "lrc"@),
        "no word-synced lyrics available"@,
    );
}

/// The `.elrc` content comes from the word-synced lyrics alone: for a track that is
/// not instrumental it is the word-synced lyrics when present and not blank, and
/// nothing when they are missing or blank, whatever the other fields hold.
pub proof fn law_elrc_content_is_the_word_synced_lyrics(parsed: ParsedLyricsfile)
    ensures
        parsed.is_instrumental ==> elrc_content(parsed) == Some(INSTRUMENTAL_LRC@),
        !parsed.is_instrumental ==> match parsed.word_synced_lyrics {
            Some(s) => if is_blank(s@) {
                elrc_content(parsed) is None
            } else {
                elrc_content(parsed) == Some(s@)
            },
            None => elrc_content(parsed) is None,
        },
{
}

/// Tracks that differ only in fields other than the word-synced lyrics and the
/// instrumental mark have the same `.elrc` content.
pub proof fn law_elrc_content_ignores_other_fields(a: ParsedLyricsfile, b: ParsedLyricsfile)
    requires
        a.is_instrumental == b.is_instrumental,
        opt_view(a.word_synced_lyrics) == opt_view(b.word_synced_lyrics),
    ensures
        elrc_content(a) == elrc_content(b),
{
}

/// A `.elrc` export writes the word-synced lyrics (or, for lrc formats, the
/// instrumental marker), and is skipped when there is nothing to write.
pub proof fn law_elrc_export_writes_word_synced_lyrics(
    r: Result<ExportAction, ExportError>,
    track: PersistentTrack,
    parsed: ParsedLyricsfile,
)
    requires
        plans_elrc_export(r, track, parsed),
    ensures
        r matches Ok(ExportAction::WriteSidecar { format, content, .. }) ==> format == ExportFormat::Elrc && ((parsed.is_instrumental && content@ == INSTRUMENTAL_LRC@) || (!parsed.is_instrumental && (parsed.word_synced_lyrics matches Some(s) && content@ == s@ && !is_blank(s@)))),
        (!parsed.is_instrumental && match parsed.word_synced_lyrics {
            Some(s) => is_blank(s@),
            None => true,
        }) ==> (r matches Ok(ExportAction::Done(res)) && res@ == (ResultView {
            format: ExportFormat::Elrc,
            path: None,
            status: StatusView::Skipped("no word-synced lyrics available"@),
        })),
{
    law_elrc_content_is_the_word_synced_lyrics(parsed);
}

} // verus!
