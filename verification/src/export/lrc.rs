use vstd::prelude::*;
use crate::lyricsfile::{ParsedLyricsfile, PersistentTrack, INSTRUMENTAL_LRC, usable_text, usable_text_of};
use crate::text::{opt_view, owned, is_blank};
use super::{ExportAction, ExportError, ExportFormat, plans_sidecar_export, sidecar_export, law_sidecar_export_spares_target, ResultView, StatusView};

verus! {

/// The content of the `.lrc` sidecar: the instrumental marker for an
/// instrumental track, else the synced lyrics, when present and not blank.
pub open spec fn lrc_content(parsed: ParsedLyricsfile) -> Option<Seq<char>> {
    if parsed.is_instrumental {
        Some(INSTRUMENTAL_LRC@)
    } else {
        usable_text(parsed.synced_lyrics)
    }
}

/// `r` plans the export of the `.lrc` sidecar.
pub open spec fn plans_lrc_export(
    r: Result<ExportAction, ExportError>,
    track: PersistentTrack,
    parsed: ParsedLyricsfile,
) -> bool {
    plans_sidecar_export(
        r,
        track.file_path@,
        lrc_content(parsed),
        ExportFormat::Lrc,
        "lrc"@,
        ("txt"@, "elrc"@),
        "no synced lyrics available"@,
    )
}

pub fn generate_lrc_content(parsed: &ParsedLyricsfile) -> (r: Option<String>)
    ensures
        opt_view(r) == lrc_content(*parsed),
{
    if parsed.is_instrumental {
        return Some(owned(INSTRUMENTAL_LRC));
    }
    usable_text_of(&parsed.synced_lyrics)
}

/// Plans the export of the `.lrc` sidecar; the `.txt` and `.elrc` sidecars
/// are removed so that only one sidecar representation is kept.
pub fn export_lrc(track: &PersistentTrack, parsed: &ParsedLyricsfile) -> (r: Result<
    ExportAction,
    ExportError,
>)
    ensures
        plans_lrc_export(r, *track, *parsed),
{
    sidecar_export(
        track.file_path.as_str(),
        generate_lrc_content(parsed),
        ExportFormat::Lrc,
        "lrc",
        ("txt", "elrc"),
        "no synced lyrics available",
    )
}


/// Exporting the `.lrc` sidecar never removes the `.lrc` file it writes.
pub proof fn law_lrc_export_spares_its_file(
    r: Result<ExportAction, ExportError>,
    track: PersistentTrack,
    parsed: ParsedLyricsfile,
)
    requires
        plans_lrc_export(r, track, parsed),
    ensures
        r matches Ok(ExportAction::WriteSidecar { path, stale, .. }) ==> stale@[0]@ != path@
            && stale@[1]@ != path@,
{
    reveal_strlit("lrc");
    reveal_strlit("txt");
    reveal_strlit("elrc");
    assert("lrc"@ != "txt"@ && "lrc"@ != "elrc"@) by {
        assert("lrc"@[0] != "txt"@[0] || "lrc"@.len() != "txt"@.len());
        assert("lrc"@[0] != "elrc"@[0] || "lrc"@.len() != "elrc"@.len());
    }
    law_sidecar_export_spares_target(
        r,
        track.file_path@,
        lrc_content(parsed),
        ExportFormat::Lrc,
        "lrc"@,
        ("txt"@, "elrc"@),
        "no synced lyrics available"@,
    );
}

/// The `.lrc` content comes from the synced lyrics alone: for a track that is
/// not instrumental it is the synced lyrics when present and not blank, and
/// nothing when they are missing or blank, whatever the other fields hold.
pub proof fn law_lrc_content_is_the_synced_lyrics(parsed: ParsedLyricsfile)
    ensures
        parsed.is_instrumental ==> lrc_content(parsed) == Some(INSTRUMENTAL_LRC@),
        !parsed.is_instrumental ==> match parsed.synced_lyrics {
            Some(s) => if is_blank(s@) {
                lrc_content(parsed) is None
            } else {
                lrc_content(parsed) == Some(s@)
            },
            None => lrc_content(parsed) is None,
        },
{
}

/// Tracks that differ only in fields other than the synced lyrics and the
/// instrumental mark have the same `.lrc` content.
pub proof fn law_lrc_content_ignores_other_fields(a: ParsedLyricsfile, b: ParsedLyricsfile)
    requires
        a.is_instrumental == b.is_instrumental,
        opt_view(a.synced_lyrics) == opt_view(b.synced_lyrics),
    ensures
        lrc_content(a) == lrc_content(b),
{
}

/// A `.lrc` export writes the synced lyrics (or, for lrc formats, the
/// instrumental marker), and is skipped when there is nothing to write.
pub proof fn law_lrc_export_writes_synced_lyrics(
    r: Result<ExportAction, ExportError>,
    track: PersistentTrack,
    parsed: ParsedLyricsfile,
)
    requires
        plans_lrc_export(r, track, parsed),
    ensures
        r matches Ok(ExportAction::WriteSidecar { format, content, .. }) ==> format == ExportFormat::Lrc && ((parsed.is_instrumental && content@ == INSTRUMENTAL_LRC@) || (!parsed.is_instrumental && (parsed.synced_lyrics matches Some(s) && content@ == s@ && !is_blank(s@)))),
        (!parsed.is_instrumental && match parsed.synced_lyrics {
            Some(s) => is_blank(s@),
            None => true,
        }) ==> (r matches Ok(ExportAction::Done(res)) && res@ == (ResultView {
            format: ExportFormat::Lrc,
            path: None,
            status: StatusView::Skipped("no synced lyrics available"@),
        })),
{
    law_lrc_content_is_the_synced_lyrics(parsed);
}

} // verus!
