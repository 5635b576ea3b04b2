//! Exporting the lyrics of a track, one format at a time.
//!
//! Each export is planned here as an [`ExportAction`]; whoever performs the
//! file work reports the outcome back through [`complete_sidecar_export`]
//! or [`complete_embed_export`], and [`export_track`] turns the outcomes of
//! several formats into one result per format.

pub mod elrc;
pub mod embedded;
pub mod lrc;
pub mod txt;

use vstd::prelude::*;
use crate::text::{concatenate, owned, opt_view};
use crate::path::{
    parent, file_stem, join, lacks, first_separator, nothing_after_separator, parent_of, file_stem_of,
    join_of, lemma_rename_within_directory,
};
use crate::lyricsfile::{ParsedLyricsfile, PersistentTrack};
use self::embedded::EmbedPlan;

verus! {

/// Errors that can occur during export operations.
#[derive(Debug, Clone, PartialEq, Eq)]
pub enum ExportError {
    PathBuildError(String),
    WriteError(String),
    EmbedError(String),
}

/// What an [`ExportError`] says.
pub enum ErrorView {
    PathBuild(Seq<char>),
    Write(Seq<char>),
    Embed(Seq<char>),
}

impl View for ExportError {
    type V = ErrorView;

    open spec fn view(&self) -> ErrorView {
        match self {
            ExportError::PathBuildError(m) => ErrorView::PathBuild(m@),
            ExportError::WriteError(m) => ErrorView::Write(m@),
            ExportError::EmbedError(m) => ErrorView::Embed(m@),
        }
    }
}

/// The message of an error: a fixed text for its kind, then its detail.
pub open spec fn error_message(e: ErrorView) -> Seq<char> {
    match e {
        ErrorView::PathBuild(m) => "Failed to build export path: "@ + m,
        ErrorView::Write(m) => "Failed to write file: "@ + m,
        ErrorView::Embed(m) => "Failed to embed lyrics: "@ + m,
    }
}

impl ExportError {
    /// The error's message.
    pub fn to_string(&self) -> (r: String)
        ensures
            r@ == error_message(self@),
    {
        match self {
            ExportError::PathBuildError(m) => concatenate("Failed to build export path: ", m.as_str()),
            ExportError::WriteError(m) => concatenate("Failed to write file: ", m.as_str()),
            ExportError::EmbedError(m) => concatenate("Failed to embed lyrics: ", m.as_str()),
        }
    }
}

/// Export format types.
#[derive(Debug, Clone, Copy, PartialEq, Eq, Structural)]
pub enum ExportFormat {
    /// Plain text format (.txt)
    Txt,
    /// Standard LRC format (.lrc)
    Lrc,
    /// Enhanced LRC format with word-level timing (.elrc)
    Elrc,
    /// Embedded in audio file metadata
    Embedded,
}

/// Status of an export operation.
#[derive(Debug, Clone, PartialEq, Eq)]
pub enum ExportStatus {
    /// Export was successful
    Success,
    /// Export was skipped (e.g., no lyrics available for this format)
    Skipped(String),
    /// Export failed with an error
    Error(String),
}

/// What an [`ExportStatus`] says.
pub enum StatusView {
    Success,
    Skipped(Seq<char>),
    Error(Seq<char>),
}

impl View for ExportStatus {
    type V = StatusView;

    open spec fn view(&self) -> StatusView {
        match self {
            ExportStatus::Success => StatusView::Success,
            ExportStatus::Skipped(m) => StatusView::Skipped(m@),
            ExportStatus::Error(m) => StatusView::Error(m@),
        }
    }
}

/// Result of an export operation.
#[derive(Debug, Clone, PartialEq, Eq)]
pub struct ExportResult {
    pub format: ExportFormat,
    pub path: Option<String>,
    pub status: ExportStatus,
}

/// What an [`ExportResult`] says.
pub struct ResultView {
    pub format: ExportFormat,
    pub path: Option<Seq<char>>,
    pub status: StatusView,
}

impl View for ExportResult {
    type V = ResultView;

    open spec fn view(&self) -> ResultView {
        ResultView { format: self.format, path: opt_view(self.path), status: self.status@ }
    }
}

/// The next step of exporting one format.
pub enum ExportAction {
    /// Nothing is to be written: the export ends with this result.
    Done(ExportResult),
    /// Remove the sidecar files at `stale` (a failure to remove one is no
    /// error), then write `content` to the sidecar file at `path`.
    WriteSidecar { format: ExportFormat, path: String, content: String, stale: Vec<String> },
    /// Write the lyrics into the metadata of the audio file at `track_path`
    /// as `plan` says.
    Embed { track_path: String, plan: EmbedPlan },
}

/// Why no sidecar path can be built for a track that has no parent
/// directory.
pub open spec fn no_parent_message() -> Seq<char> {
    "Track has no parent directory"@
}

/// Why no sidecar path can be built for a track that has no file stem.
pub open spec fn invalid_name_message() -> Seq<char> {
    "Invalid track filename"@
}

/// The file name of a sidecar: the track's stem, a dot, the extension.
pub open spec fn sidecar_name(stem: Seq<char>, extension: Seq<char>) -> Seq<char> {
    stem + seq!['.'] + extension
}

/// The sidecar file of a track for an extension: in the track's directory,
/// named after the track's stem. On failure, the reason.
pub open spec fn sidecar_path(track: Seq<char>, extension: Seq<char>) -> Result<Seq<char>, Seq<char>> {
    match parent(track) {
        None => Err(no_parent_message()),
        Some(dir) => match file_stem(track) {
            None => Err(invalid_name_message()),
            Some(stem) => Ok(join(dir, sidecar_name(stem, extension))),
        },
    }
}

/// Build the file path for a lyrics sidecar file.
pub fn build_sidecar_path(track_path: &str, extension: &str) -> (r: Result<String, ExportError>)
    ensures
        match sidecar_path(track_path@, extension@) {
            Ok(p) => r matches Ok(s) && s@ == p,
            Err(m) => r matches Err(e) && e@ == ErrorView::PathBuild(m),
        },
{
    let parent_path = match parent_of(track_path) {
        Some(p) => p,
        None => {
            return Err(ExportError::PathBuildError(owned("Track has no parent directory")));
        },
    };
    let file_stem = match file_stem_of(track_path) {
        Some(s) => s,
        None => {
            return Err(ExportError::PathBuildError(owned("Invalid track filename")));
        },
    };
    let dotted = concatenate(file_stem.as_str(), ".");
    let name = concatenate(dotted.as_str(), extension);
    proof {
        reveal_strlit(".");
        assert(name@ =~= sidecar_name(file_stem@, extension@));
    }
    Ok(join_of(parent_path.as_str(), name.as_str()))
}


/// `r` plans the export of a sidecar format: skipped with `skip_message`
/// when there is no `content`; else the sidecar for `extension` is written
/// with it, after the sidecars for the two `conflicting` extensions are
/// removed; an error when the track has no sidecar path.
pub open spec fn plans_sidecar_export(
    r: Result<ExportAction, ExportError>,
    track: Seq<char>,
    content: Option<Seq<char>>,
    format: ExportFormat,
    extension: Seq<char>,
    conflicting: (Seq<char>, Seq<char>),
    skip_message: Seq<char>,
) -> bool {
    match content {
        None => r matches Ok(ExportAction::Done(res)) && res@ == (ResultView {
            format: format,
            path: None,
            status: StatusView::Skipped(skip_message),
        }),
        Some(text) => match sidecar_path(track, extension) {
            Err(m) => r matches Err(e) && e@ == ErrorView::PathBuild(m),
            Ok(p) => r matches Ok(ExportAction::WriteSidecar { format: f, path, content: c, stale }) && {
                &&& f == format
                &&& path@ == p
                &&& c@ == text
                &&& stale@.len() == 2
                &&& sidecar_path(track, conflicting.0) == Ok::<Seq<char>, Seq<char>>(stale@[0]@)
                &&& sidecar_path(track, conflicting.1) == Ok::<Seq<char>, Seq<char>>(stale@[1]@)
            },
        },
    }
}

/// Whether a sidecar path can be built for a track, and why not, does not
/// depend on the extension.
pub proof fn law_sidecar_path_success_ignores_extension(
    track: Seq<char>,
    a: Seq<char>,
    b: Seq<char>,
)
    ensures
        sidecar_path(track, a) is Ok <==> sidecar_path(track, b) is Ok,
        sidecar_path(track, a) matches Err(m) ==> sidecar_path(track, b) == Err::<Seq<char>, Seq<char>>(m),
{
}

/// A sidecar lies in its track's directory: both have the same parent,
/// for every extension that has only empty or `.` segments past its first
/// separator (an extension such as `x/y` puts the sidecar in a
/// subdirectory).
pub proof fn law_sidecar_keeps_directory(track: Seq<char>, extension: Seq<char>)
    requires
        nothing_after_separator(extension),
    ensures
        sidecar_path(track, extension) matches Ok(q) ==> parent(q) == parent(track),
{
    if sidecar_path(track, extension) is Ok {
        lemma_rename_within_directory(track, extension);
    }
}

/// The part of an extension that names the sidecar's extension: what comes
/// before its first separator.
pub open spec fn extension_part(extension: Seq<char>) -> Seq<char> {
    extension.subrange(0, first_separator(extension))
}

/// The extensions for which a sidecar keeps its track's stem: past the
/// first separator only empty or `.` segments, before it no `.`, and not
/// empty when the stem is `.` (the sidecar would be `..`).
pub open spec fn stem_keeping_extension(track: Seq<char>, extension: Seq<char>) -> bool {
    &&& nothing_after_separator(extension)
    &&& lacks(extension_part(extension), '.')
    &&& (extension_part(extension).len() > 0 || file_stem(track) != Some(seq!['.']))
}

/// A sidecar keeps its track's stem, and its extension is the part of the
/// requested one before any separator.
pub proof fn law_sidecar_keeps_stem(track: Seq<char>, extension: Seq<char>)
    requires
        stem_keeping_extension(track, extension),
    ensures
        sidecar_path(track, extension) matches Ok(q) ==> file_stem(q) == file_stem(track)
            && crate::path::extension(q) == Some(extension_part(extension)),
{
    if sidecar_path(track, extension) is Ok {
        lemma_rename_within_directory(track, extension);
    }
}

/// The sidecar of a sidecar is the track's own sidecar: building a sidecar
/// path from a sidecar path for another extension gives what building it
/// from the track gives, success or failure alike.
pub proof fn law_sidecar_of_sidecar(track: Seq<char>, a: Seq<char>, b: Seq<char>)
    requires
        stem_keeping_extension(track, a),
    ensures
        sidecar_path(track, a) matches Ok(q) ==> sidecar_path(q, b) == sidecar_path(track, b),
{
    if sidecar_path(track, a) is Ok {
        lemma_rename_within_directory(track, a);
    }
}

/// Sidecars for different extensions are different files.
pub proof fn law_sidecars_differ(track: Seq<char>, a: Seq<char>, b: Seq<char>)
    requires
        a != b,
    ensures
        sidecar_path(track, a) matches Ok(qa) ==> sidecar_path(track, b) matches Ok(qb) ==> qa != qb,
{
    if sidecar_path(track, a) is Ok && sidecar_path(track, b) is Ok {
        let dir = parent(track)->0;
        let stem = file_stem(track)->0;
        let qa = join(dir, sidecar_name(stem, a));
        let qb = join(dir, sidecar_name(stem, b));
        let rooted = stem.len() > 0 && stem[0] == '/';
        let base = if rooted {
            stem + seq!['.']
        } else if dir.len() > 0 && dir.last() != '/' {
            dir + seq!['/'] + stem + seq!['.']
        } else {
            dir + stem + seq!['.']
        };
        assert(sidecar_name(stem, a)[0] == sidecar_name(stem, b)[0]);
        assert(qa =~= base + a);
        assert(qb =~= base + b);
        if qa == qb {
            assert(a =~= qa.subrange(base.len() as int, qa.len() as int));
            assert(b =~= qb.subrange(base.len() as int, qb.len() as int));
        }
    }
}

/// A sidecar export never removes the file it writes: when its extension
/// differs from the conflicting ones, no stale path is the target path.
pub proof fn law_sidecar_export_spares_target(
    r: Result<ExportAction, ExportError>,
    track: Seq<char>,
    content: Option<Seq<char>>,
    format: ExportFormat,
    extension: Seq<char>,
    conflicting: (Seq<char>, Seq<char>),
    skip_message: Seq<char>,
)
    requires
        plans_sidecar_export(r, track, content, format, extension, conflicting, skip_message),
        extension != conflicting.0,
        extension != conflicting.1,
    ensures
        r matches Ok(ExportAction::WriteSidecar { path, stale, .. }) ==> stale@[0]@ != path@
            && stale@[1]@ != path@,
{
    law_sidecar_path_success_ignores_extension(track, extension, conflicting.0);
    law_sidecar_path_success_ignores_extension(track, extension, conflicting.1);
    law_sidecars_differ(track, extension, conflicting.0);
    law_sidecars_differ(track, extension, conflicting.1);
}

/// Plans the export of a sidecar format (see [`plans_sidecar_export`]).
pub fn sidecar_export(
    track_path: &str,
    content: Option<String>,
    format: ExportFormat,
    extension: &str,
    conflicting: (&str, &str),
    skip_message: &str,
) -> (r: Result<ExportAction, ExportError>)
    ensures
        plans_sidecar_export(
            r,
            track_path@,
            opt_view(content),
            format,
            extension@,
            (conflicting.0@, conflicting.1@),
            skip_message@,
        ),
{
    let content = match content {
        Some(content) => content,
        None => {
            return Ok(
                ExportAction::Done(
                    ExportResult {
                        format,
                        path: None,
                        status: ExportStatus::Skipped(owned(skip_message)),
                    },
                ),
            );
        },
    };
    let path = build_sidecar_path(track_path, extension)?;
    let mut stale: Vec<String> = Vec::new();
    proof {
        law_sidecar_path_success_ignores_extension(track_path@, extension@, conflicting.0@);
        law_sidecar_path_success_ignores_extension(track_path@, extension@, conflicting.1@);
    }
    if let Ok(p) = build_sidecar_path(track_path, conflicting.0) {
        stale.push(p);
    }
    if let Ok(p) = build_sidecar_path(track_path, conflicting.1) {
        stale.push(p);
    }
    Ok(ExportAction::WriteSidecar { format, path, content, stale })
}

/// The result of a sidecar export once the write was attempted: success
/// with the sidecar's path, or the write's failure.
pub fn complete_sidecar_export(
    format: ExportFormat,
    path: String,
    written: Result<(), String>,
) -> (r: Result<ExportResult, ExportError>)
    ensures
        match written {
            Ok(()) => r matches Ok(res) && res@ == (ResultView {
                format: format,
                path: Some(path@),
                status: StatusView::Success,
            }),
            Err(m) => r matches Err(e) && e@ == ErrorView::Write(m@),
        },
{
    match written {
        Ok(()) => Ok(ExportResult { format, path: Some(path), status: ExportStatus::Success }),
        Err(m) => Err(ExportError::WriteError(m)),
    }
}


/// `r` plans the export of `format` for the track.
pub open spec fn plans_export(
    r: Result<ExportAction, ExportError>,
    track: PersistentTrack,
    parsed: ParsedLyricsfile,
    format: ExportFormat,
) -> bool {
    match format {
        ExportFormat::Txt => txt::plans_txt_export(r, track, parsed),
        ExportFormat::Lrc => lrc::plans_lrc_export(r, track, parsed),
        ExportFormat::Elrc => elrc::plans_elrc_export(r, track, parsed),
        ExportFormat::Embedded => r matches Ok(a) && embedded::plans_embedded_export(a, track, parsed),
    }
}

/// Export lyrics for a single track in the specified format: plans it.
pub fn export_track_format(
    track: &PersistentTrack,
    parsed: &ParsedLyricsfile,
    format: ExportFormat,
) -> (r: Result<ExportAction, ExportError>)
    ensures
        plans_export(r, *track, *parsed, format),
{
    match format {
        ExportFormat::Txt => txt::export_txt(track, parsed),
        ExportFormat::Lrc => lrc::export_lrc(track, parsed),
        ExportFormat::Elrc => elrc::export_elrc(track, parsed),
        ExportFormat::Embedded => Ok(embedded::export_embedded(track, parsed)),
    }
}

/// The result recorded for one format of a track, given how its export
/// ended: the export's own result, or a failure with the error's message.
pub open spec fn outcome_result(
    format: ExportFormat,
    outcome: Result<ExportResult, ExportError>,
) -> ResultView {
    match outcome {
        Ok(res) => res@,
        Err(e) => ResultView {
            format: format,
            path: None,
            status: StatusView::Error(error_message(e@)),
        },
    }
}

/// A failed export is recorded for its format as a failure that carries
/// the error's message, with no path; a skipped or successful result only
/// ever comes from an export that did not fail.
pub proof fn law_failed_export_is_recorded_as_error(
    format: ExportFormat,
    outcome: Result<ExportResult, ExportError>,
)
    ensures
        outcome matches Err(e) ==> outcome_result(format, outcome) == (ResultView {
            format: format,
            path: None,
            status: StatusView::Error(error_message(e@)),
        }),
        outcome_result(format, outcome).status is Skipped ==> outcome is Ok,
        outcome_result(format, outcome).status is Success ==> outcome is Ok,
{
}

/// The message of an error ends with the error's detail.
pub proof fn law_error_message_ends_with_detail(e: ExportError)
    ensures
        ({
            let m = error_message(e@);
            let d = match e@ {
                ErrorView::PathBuild(d) => d,
                ErrorView::Write(d) => d,
                ErrorView::Embed(d) => d,
            };
            d.len() <= m.len() && m.subrange(m.len() - d.len(), m.len() as int) == d
        }),
{
    let m = error_message(e@);
    let d = match e@ {
        ErrorView::PathBuild(d) => d,
        ErrorView::Write(d) => d,
        ErrorView::Embed(d) => d,
    };
    assert(m.subrange(m.len() - d.len(), m.len() as int) =~= d);
}

/// Errors of different kinds with the same detail have different messages.
pub proof fn law_error_kinds_have_distinct_messages(d: Seq<char>)
    ensures
        error_message(ErrorView::PathBuild(d)) != error_message(ErrorView::Write(d)),
        error_message(ErrorView::PathBuild(d)) != error_message(ErrorView::Embed(d)),
        error_message(ErrorView::Write(d)) != error_message(ErrorView::Embed(d)),
{
    reveal_strlit("Failed to build export path: ");
    reveal_strlit("Failed to write file: ");
    reveal_strlit("Failed to embed lyrics: ");
    let a = error_message(ErrorView::PathBuild(d));
    let b = error_message(ErrorView::Write(d));
    let c = error_message(ErrorView::Embed(d));
    assert(a[10] == 'b' && b[10] == 'w' && c[10] == 'e');
}

fn result_of_outcome(format: ExportFormat, outcome: Result<ExportResult, ExportError>) -> (r:
    ExportResult)
    ensures
        r@ == outcome_result(format, outcome),
{
    match outcome {
        Ok(res) => res,
        Err(e) => ExportResult {
            format,
            path: None,
            status: ExportStatus::Error(e.to_string()),
        },
    }
}

/// Export lyrics for a track in multiple formats: given how the export of
/// each format ended (`outcomes[i]` for `formats[i]`, a result of that
/// format or an error), the result for each format, in order.
pub fn export_track(
    formats: &[ExportFormat],
    outcomes: Vec<Result<ExportResult, ExportError>>,
) -> (r: Vec<ExportResult>)
    requires
        outcomes@.len() == formats@.len(),
        forall|i: int|
            0 <= i < formats@.len() ==> (#[trigger] outcomes@[i] matches Ok(res) ==> res.format
                == formats@[i]),
    ensures
        r@.len() == formats@.len(),
        forall|i: int| 0 <= i < formats@.len() ==> (#[trigger] r@[i]).format == formats@[i],
        forall|i: int|
            0 <= i < formats@.len() ==> (#[trigger] r@[i])@ == outcome_result(
                formats@[i],
                outcomes@[i],
            ),
{
    let mut results: Vec<ExportResult> = Vec::with_capacity(formats.len());
    let mut rest = outcomes;
    let mut i: usize = 0;
    while i < formats.len()
        invariant
            i <= formats@.len() == outcomes@.len(),
            rest@ == outcomes@.subrange(i as int, outcomes@.len() as int),
            results@.len() == i,
            forall|j: int|
                0 <= j < i ==> (#[trigger] results@[j])@ == outcome_result(
                    formats@[j],
                    outcomes@[j],
                ),
        decreases formats@.len() - i,
    {
        let outcome = rest.remove(0);
        assert(outcome == outcomes@[i as int]);
        results.push(result_of_outcome(formats[i], outcome));
        assert(rest@ =~= outcomes@.subrange(i + 1, outcomes@.len() as int));
        i = i + 1;
    }
    results
}

} // verus!
