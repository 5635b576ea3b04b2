use vstd::prelude::*;
use crate::lyricsfile::{ParsedLyricsfile, PersistentTrack, usable_text, usable_text_of};
use crate::text::{opt_view, is_blank};
use super::{ExportAction, ExportError, ExportFormat, plans_sidecar_export, sidecar_export, law_sidecar_export_spares_target, ResultView, StatusView};

verus! {

/// The content of the `.txt` sidecar: the plain lyrics, when present and
/// not blank; none for an instrumental track.
pub open spec fn txt_content(parsed: ParsedLyricsfile) -> Option<Seq<char>> {
    if parsed.is_instrumental {
        None
    } else {
        usable_text(parsed.plain_lyrics)
    }
}

/// `r` plans the export of the `.txt` sidecar.
pub open spec fn plans_txt_export(
    r: Result<ExportAction, ExportError>,
    track: PersistentTrack,
    parsed: ParsedLyricsfile,
) -> bool {
    plans_sidecar_export(
        r,
        track.file_path@,
        txt_content(parsed),
        ExportFormat::Txt,
        "txt"@,
        ("lrc"@, "elrc"@),
        "no plain lyrics available"@,
    )
}

pub fn generate_txt_content(parsed: &ParsedLyricsfile) -> (r: Option<String>)
    ensures
        opt_view(r) == txt_content(*parsed),
{
    if parsed.is_instrumental {
        return None;
    }
    usable_text_of(&parsed.plain_lyrics)
}

/// Plans the export of the `.txt` sidecar; the `.lrc` and `.elrc` sidecars
/// are removed so that only one sidecar representation is kept.
pub fn export_txt(track: &PersistentTrack, parsed: &ParsedLyricsfile) -> (r: Result<
    ExportAction,
    ExportError,
>)
    ensures
        plans_txt_export(r, *track, *parsed),
{
    sidecar_export(
        track.file_path.as_str(),
        generate_txt_content(parsed),
        ExportFormat::Txt,
        "txt",
        ("lrc", "elrc"),
        "no plain lyrics available",
    )
}


/// Exporting the `.txt` sidecar never removes the `.txt` file it writes.
pub proof fn law_txt_export_spares_its_file(
    r: Result<ExportAction, ExportError>,
    track: PersistentTrack,
    parsed: ParsedLyricsfile,
)
    requires
        plans_txt_export(r, track, parsed),
    ensures
        r matches Ok(ExportAction::WriteSidecar { path, stale, .. }) ==> stale@[0]@ != path@
            && stale@[1]@ != path@,
{
    reveal_strlit("txt");
    reveal_strlit("lrc");
    reveal_strlit("elrc");
    assert("txt"@ != "lrc"@ && "txt"@ != "elrc"@) by {
        assert("txt"@[0] != "lrc"@[0] || "txt"@.len() != "lrc"@.len());
        assert("txt"@[0] != "elrc"@[0] || "txt"@.len() != "elrc"@.len());
    }
    law_sidecar_export_spares_target(
        r,
        track.file_path@,
        txt_content(parsed),
        ExportFormat::Txt,
        "txt"@,
        ("lrc"@, "elrc"@),
        "no plain lyrics available"@,
    );
}

/// The `.txt` content comes from the plain lyrics alone: for a track that is
/// not instrumental it is the plain lyrics when present and not blank, and
/// nothing when they are missing or blank, whatever the other fields hold.
pub proof fn law_txt_content_is_the_plain_lyrics(parsed: ParsedLyricsfile)
    ensures
        parsed.is_instrumental ==> txt_content(parsed) is None,
        !parsed.is_instrumental ==> match parsed.plain_lyrics {
            Some(s) => if is_blank(s@) {
                txt_content(parsed) is None
            } else {
                txt_content(parsed) == Some(s@)
            },
            None => txt_content(parsed) is None,
        },
{
}

/// Tracks that differ only in fields other than the plain lyrics and the
/// instrumental mark have the same `.txt` content.
pub proof fn law_txt_content_ignores_other_fields(a: ParsedLyricsfile, b: ParsedLyricsfile)
    requires
        a.is_instrumental == b.is_instrumental,
        opt_view(a.plain_lyrics) == opt_view(b.plain_lyrics),
    ensures
        txt_content(a) == txt_content(b),
{
}

/// A `.txt` export writes the plain lyrics (or, for lrc formats, the
/// instrumental marker), and is skipped when there is nothing to write.
pub proof fn law_txt_export_writes_plain_lyrics(
    r: Result<ExportAction, ExportError>,
    track: PersistentTrack,
    parsed: ParsedLyricsfile,
)
    requires
        plans_txt_export(r, track, parsed),
    ensures
        r matches Ok(ExportAction::WriteSidecar { format, content, .. }) ==> format == ExportFormat::Txt && (!parsed.is_instrumental && (parsed.plain_lyrics matches Some(s) && content@ == s@ && !is_blank(s@))),
        (parsed.is_instrumental || match parsed.plain_lyrics {
            Some(s) => is_blank(s@),
            None => true,
        }) ==> (r matches Ok(ExportAction::Done(res)) && res@ == (ResultView {
            format: ExportFormat::Txt,
            path: None,
            status: StatusView::Skipped("no plain lyrics available"@),
        })),
{
    law_txt_content_is_the_plain_lyrics(parsed);
}

} // verus!
