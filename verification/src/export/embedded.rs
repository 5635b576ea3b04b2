use vstd::prelude::*;
use crate::lyricsfile::{ParsedLyricsfile, PersistentTrack, INSTRUMENTAL_LRC};
use crate::text::{ends_with_ignoring_ascii_case, ends_with_ignoring_ascii_case_str, opt_view, owned};
use vstd::utf8::encode_utf8;
use lofty::config::WriteOptions;
use lofty::id3::v2::{SyncTextContentType, SynchronizedTextFrame, TimestampFormat};
use lofty::TextEncoding;
use super::{ErrorView, ExportAction, ExportError, ExportFormat, ExportResult, ExportStatus, ResultView, StatusView};

verus! {

/// What kind of file the lyrics are embedded into.
#[derive(Debug, Clone, Copy, PartialEq, Eq, Structural)]
pub enum EmbedTarget {
    /// An MP3 file: the lyrics go into ID3v2 USLT and SYLT frames.
    Mp3,
    /// A FLAC file: the lyrics go into Vorbis comments.
    Flac,
}

/// How to write lyrics into the metadata of an audio file.
pub struct EmbedPlan {
    pub target: EmbedTarget,
    /// The unsynchronised lyrics to store, or `None` to remove them.
    pub unsynced_lyrics: Option<String>,
    /// The synchronised (LRC) lyrics to store, or `None` to remove them.
    pub synced_lyrics: Option<String>,
}

/// The kind of audio file at `track_path`, told by its extension, letters
/// compared without regard to case (as `to_lowercase().ends_with(..)` tells
/// it for these ASCII suffixes); `None` for any other file, into which
/// nothing is embedded.
pub open spec fn embed_target(track_path: Seq<char>) -> Option<EmbedTarget> {
    if ends_with_ignoring_ascii_case(track_path, ".mp3"@) {
        Some(EmbedTarget::Mp3)
    } else if ends_with_ignoring_ascii_case(track_path, ".flac"@) {
        Some(EmbedTarget::Flac)
    } else {
        None
    }
}

/// A lyrics text to store, or `None` (remove it) when it is empty.
pub open spec fn stored_text(s: Seq<char>) -> Option<Seq<char>> {
    if s.len() == 0 {
        None
    } else {
        Some(s)
    }
}

fn stored_text_of(s: &str) -> (r: Option<String>)
    ensures
        opt_view(r) == stored_text(s@),
{
    if s.is_empty() {
        None
    } else {
        Some(owned(s))
    }
}

/// `plan` embeds the lyrics into the file at `track_path`: for its kind of
/// file, storing each text that is not empty and removing each that is.
pub open spec fn plans_embedding(
    plan: EmbedPlan,
    track_path: Seq<char>,
    plain_lyrics: Seq<char>,
    synced_lyrics: Seq<char>,
) -> bool {
    &&& embed_target(track_path) == Some(plan.target)
    &&& opt_view(plan.unsynced_lyrics) == stored_text(plain_lyrics)
    &&& opt_view(plan.synced_lyrics) == stored_text(synced_lyrics)
}

/// Embed lyrics into audio file metadata (MP3/FLAC): plans the change, or
/// `None` when the file is neither MP3 nor FLAC, which leaves the file
/// alone and succeeds.
pub fn embed_lyrics(track_path: &str, plain_lyrics: &str, synced_lyrics: &str) -> (r: Option<
    EmbedPlan,
>)
    ensures
        r is None <==> embed_target(track_path@) is None,
        r matches Some(plan) ==> plans_embedding(plan, track_path@, plain_lyrics@, synced_lyrics@),
{
    let target = if ends_with_ignoring_ascii_case_str(track_path, ".mp3") {
        EmbedTarget::Mp3
    } else if ends_with_ignoring_ascii_case_str(track_path, ".flac") {
        EmbedTarget::Flac
    } else {
        return None;
    };
    Some(
        EmbedPlan {
            target,
            unsynced_lyrics: stored_text_of(plain_lyrics),
            synced_lyrics: stored_text_of(synced_lyrics),
        },
    )
}

/// The plain lyrics that are embedded: the plain lyrics, or nothing.
pub open spec fn embedded_plain(parsed: ParsedLyricsfile) -> Seq<char> {
    match parsed.plain_lyrics {
        Some(s) => s@,
        None => Seq::empty(),
    }
}

/// The synced lyrics that are embedded: the instrumental marker for an
/// instrumental track, else the synced lyrics, or nothing.
pub open spec fn embedded_synced(parsed: ParsedLyricsfile) -> Seq<char> {
    if parsed.is_instrumental {
        INSTRUMENTAL_LRC@
    } else {
        match parsed.synced_lyrics {
            Some(s) => s@,
            None => Seq::empty(),
        }
    }
}

fn text_or_empty(field: &Option<String>) -> (r: String)
    ensures
        r@ == match *field {
            Some(s) => s@,
            None => Seq::<char>::empty(),
        },
{
    match field {
        Some(s) => s.clone(),
        None => String::new(),
    }
}

/// `r` plans embedding the lyrics of a track into its audio file; for a
/// file that is neither MP3 nor FLAC, the export succeeds at once.
pub open spec fn plans_embedded_export(
    r: ExportAction,
    track: PersistentTrack,
    parsed: ParsedLyricsfile,
) -> bool {
    if embed_target(track.file_path@) is None {
        r matches ExportAction::Done(res) && res@ == (ResultView {
            format: ExportFormat::Embedded,
            path: Some(track.file_path@),
            status: StatusView::Success,
        })
    } else {
        r matches ExportAction::Embed { track_path, plan } && {
            &&& track_path@ == track.file_path@
            &&& plans_embedding(plan, track.file_path@, embedded_plain(parsed), embedded_synced(parsed))
        }
    }
}

/// Plans embedding the lyrics of a track into its audio file.
pub fn export_embedded(track: &PersistentTrack, parsed: &ParsedLyricsfile) -> (r: ExportAction)
    ensures
        plans_embedded_export(r, *track, *parsed),
{
    let plain_lyrics = text_or_empty(&parsed.plain_lyrics);
    let synced_lyrics = if parsed.is_instrumental {
        owned(INSTRUMENTAL_LRC)
    } else {
        text_or_empty(&parsed.synced_lyrics)
    };
    match embed_lyrics(track.file_path.as_str(), plain_lyrics.as_str(), synced_lyrics.as_str()) {
        Some(plan) => ExportAction::Embed { track_path: track.file_path.clone(), plan },
        None => ExportAction::Done(
            ExportResult {
                format: ExportFormat::Embedded,
                path: Some(track.file_path.clone()),
                status: ExportStatus::Success,
            },
        ),
    }
}

/// A line of synced lyrics: when it starts, in milliseconds, and its text.
pub struct TimedLine {
    pub timestamp_ms: u64,
    pub text: String,
}

/// The content of an ID3v2 `SYLT` frame for the timed lines of synced
/// lyrics: each line's start in milliseconds, cut to 32 bits as `as u32`
/// cuts it, with its text, in order.
pub fn synced_lyrics_to_sylt_vec(timed_lines: &Vec<TimedLine>) -> (r: Vec<(u32, String)>)
    ensures
        r@.len() == timed_lines@.len(),
        forall|i: int|
            0 <= i < r@.len() ==> (#[trigger] r@[i]).0 == timed_lines@[i].timestamp_ms as u32
                && r@[i].1@ == timed_lines@[i].text@,
{
    let mut converted: Vec<(u32, String)> = Vec::new();
    let mut i: usize = 0;
    while i < timed_lines.len()
        invariant
            i <= timed_lines@.len(),
            converted@.len() == i,
            forall|j: int|
                0 <= j < i ==> (#[trigger] converted@[j]).0 == timed_lines@[j].timestamp_ms as u32
                    && converted@[j].1@ == timed_lines@[j].text@,
        decreases timed_lines.len() - i,
    {
        let line = &timed_lines[i];
        converted.push((line.timestamp_ms as u32, line.text.clone()));
        i = i + 1;
    }
    converted
}

/// The code of UTF-8 among ID3v2 text encodings.
pub const TEXT_ENCODING_UTF8: u8 = 3;

/// The code of milliseconds among SYLT timestamp formats.
pub const TIMESTAMP_FORMAT_MS: u8 = 2;

/// The code of lyrics among SYLT content types.
pub const CONTENT_TYPE_LYRICS: u8 = 1;

/// The language code written into the lyrics and comment frames: unknown.
pub open spec fn unknown_language() -> Seq<u8> {
    seq![88u8, 88u8, 88u8]
}

/// The bytes of an optional byte vector.
pub open spec fn opt_bytes(o: Option<Vec<u8>>) -> Option<Seq<u8>> {
    match o {
        Some(b) => Some(b@),
        None => None,
    }
}

/// The entries of a SYLT frame, each text taken by its characters.
pub open spec fn sylt_entries(v: Seq<(u32, String)>) -> Seq<(u32, Seq<char>)> {
    v.map_values(|e: (u32, String)| (e.0, e.1@))
}

/// The SYLT entries for timed lines: each line's start cut to 32 bits, with
/// its text.
pub open spec fn sylt_lines(lines: Seq<TimedLine>) -> Seq<(u32, Seq<char>)> {
    lines.map_values(|l: TimedLine| (l.timestamp_ms as u32, l.text@))
}

/// The four bytes of `t`, most significant first.
pub open spec fn be32(t: u32) -> Seq<u8> {
    seq![
        (t / 0x100_0000) as u8,
        ((t / 0x1_0000) % 0x100) as u8,
        ((t / 0x100) % 0x100) as u8,
        (t % 0x100) as u8,
    ]
}

/// The entries of a SYLT body in UTF-8: each text, a zero byte, then its
/// time.
pub open spec fn utf8_sylt_entries(content: Seq<(u32, Seq<char>)>) -> Seq<u8>
    decreases content.len(),
{
    if content.len() == 0 {
        Seq::empty()
    } else {
        encode_utf8(content[0].1) + seq![0u8] + be32(content[0].0) + utf8_sylt_entries(
            content.drop_first(),
        )
    }
}

/// A SYLT body in UTF-8: the encoding code, the language, the timestamp
/// format, the content type, the description ended by a zero byte, then the
/// entries.
pub open spec fn utf8_sylt_body(
    language: Seq<u8>,
    timestamp_format: u8,
    content_type: u8,
    description: Seq<char>,
    content: Seq<(u32, Seq<char>)>,
) -> Seq<u8> {
    seq![TEXT_ENCODING_UTF8] + language + seq![timestamp_format, content_type] + encode_utf8(
        description,
    ) + seq![0u8] + utf8_sylt_entries(content)
}

/// An ASCII letter, as `u8::is_ascii_alphabetic` tells it.
pub open spec fn is_ascii_letter(b: u8) -> bool {
    (0x41 <= b <= 0x5a) || (0x61 <= b <= 0x7a)
}

/// A body of at most `u32::MAX` bytes, or `None`.
pub open spec fn within_frame_limit(b: Seq<u8>) -> Option<Seq<u8>> {
    if b.len() <= u32::MAX {
        Some(b)
    } else {
        None
    }
}

/// lofty's `SynchronizedTextFrame::new(..).as_bytes(WriteOptions::default())`:
/// the body of a SYLT frame. The codes are turned into lofty's enums by
/// their `TryFrom<u8>`; a code that names none gives `None`, as does a
/// frame that `as_bytes` refuses. With UTF-8 text, a valid timestamp format
/// and content type and a language of three ASCII letters, lofty writes the
/// encoding code, the language, the two codes, the description (or nothing)
/// followed by a zero byte, and each text followed by a zero byte and its
/// time in big-endian order; it refuses only a body longer than `u32::MAX`
/// bytes. Nothing is stated for the other encodings: lofty writes UTF-16
/// in the machine's byte order.
#[verifier::external_body]
fn encode_sylt_frame(
    encoding: u8,
    language: [u8; 3],
    timestamp_format: u8,
    content_type: u8,
    description: Option<String>,
    content: Vec<(u32, String)>,
) -> (r: Option<Vec<u8>>)
    ensures
        encoding == TEXT_ENCODING_UTF8 && (timestamp_format == 1 || timestamp_format == 2)
            && content_type <= 8 && is_ascii_letter(language[0]) && is_ascii_letter(language[1])
            && is_ascii_letter(language[2]) ==> opt_bytes(r) == within_frame_limit(
            utf8_sylt_body(
                language@,
                timestamp_format,
                content_type,
                match opt_view(description) {
                    Some(d) => d,
                    None => Seq::empty(),
                },
                sylt_entries(content@),
            ),
        ),
{
    let encoding = TextEncoding::try_from(encoding).ok()?;
    let timestamp_format = TimestampFormat::try_from(timestamp_format).ok()?;
    let content_type = SyncTextContentType::try_from(content_type).ok()?;
    SynchronizedTextFrame::new(encoding, language, timestamp_format, content_type, description, content)
        .as_bytes(WriteOptions::default())
        .ok()
}

/// The language code of the frames this crate writes: `XXX`, unknown.
pub fn unknown_language_code() -> (r: [u8; 3])
    ensures
        r@ == unknown_language(),
{
    let r = [88u8, 88u8, 88u8];
    assert(r@ =~= unknown_language());
    r
}

/// The SYLT body for timed lines (see [`sylt_frame_of`]).
pub open spec fn sylt_frame_of_spec(lines: Seq<TimedLine>) -> Option<Seq<u8>> {
    within_frame_limit(
        utf8_sylt_body(
            unknown_language(),
            TIMESTAMP_FORMAT_MS,
            CONTENT_TYPE_LYRICS,
            Seq::empty(),
            sylt_lines(lines),
        ),
    )
}

/// The body of the SYLT frame for synced lyrics given by their timed lines:
/// UTF-8 text, language `XXX`, millisecond timestamps, lyrics, no
/// description; `None` when the body would exceed `u32::MAX` bytes.
pub fn sylt_frame_of(timed_lines: &Vec<TimedLine>) -> (r: Option<Vec<u8>>)
    ensures
        opt_bytes(r) == sylt_frame_of_spec(timed_lines@),
{
    let content = synced_lyrics_to_sylt_vec(timed_lines);
    assert(sylt_entries(content@) =~= sylt_lines(timed_lines@));
    let language = unknown_language_code();
    encode_sylt_frame(
        TEXT_ENCODING_UTF8,
        language,
        TIMESTAMP_FORMAT_MS,
        CONTENT_TYPE_LYRICS,
        None,
        content,
    )
}

/// The text fields of an ID3v2 frame that carries a language: a comment
/// (COMM) or unsynchronised lyrics (USLT).
pub struct LanguageFrame {
    /// The ID3v2 text encoding code.
    pub encoding: u8,
    pub language: [u8; 3],
    pub description: String,
    pub content: String,
}

/// The ID of the comment frames, which are taken out of the tag before the
/// edits and handed to [`id3_lyrics_edits`].
pub const COMMENT_FRAME_ID: &'static str = "COMM";

/// A change to an ID3v2 tag.
pub enum FrameEdit {
    /// Insert a comment (COMM) frame.
    Comment(LanguageFrame),
    /// Insert an unsynchronised lyrics (USLT) frame.
    UnsyncedLyrics(LanguageFrame),
    /// Insert a frame given by its ID and its body.
    Binary { id: String, body: Vec<u8> },
    /// Remove every frame with this ID.
    Remove { id: String },
}

/// `f` is the frame `g` relabelled with the unknown language.
pub open spec fn relabelled(f: LanguageFrame, g: LanguageFrame) -> bool {
    &&& f.encoding == g.encoding
    &&& f.language@ == unknown_language()
    &&& f.description@ == g.description@
    &&& f.content@ == g.content@
}

/// `f` is the USLT frame for `text`: UTF-8, unknown language, no
/// description.
pub open spec fn uslt_frame(f: LanguageFrame, text: Seq<char>) -> bool {
    &&& f.encoding == TEXT_ENCODING_UTF8
    &&& f.language@ == unknown_language()
    &&& f.description@ == Seq::<char>::empty()
    &&& f.content@ == text
}

/// The comment frames with their language set to `XXX`, in order.
pub fn relabel_comments(comments: Vec<LanguageFrame>) -> (r: Vec<LanguageFrame>)
    ensures
        r@.len() == comments@.len(),
        forall|i: int| 0 <= i < r@.len() ==> relabelled(#[trigger] r@[i], comments@[i]),
{
    let ghost orig = comments@;
    let ghost n = comments@.len();
    let mut rest = comments;
    let mut r: Vec<LanguageFrame> = Vec::new();
    while rest.len() > 0
        invariant
            orig.len() == n,
            r@.len() + rest@.len() == n,
            rest@ == orig.subrange(r@.len() as int, n as int),
            forall|i: int| 0 <= i < r@.len() ==> relabelled(#[trigger] r@[i], orig[i]),
        decreases rest@.len(),
    {
        let ghost k = r@.len();
        let f = rest.remove(0);
        assert(f == orig[k as int]);
        r.push(
            LanguageFrame {
                encoding: f.encoding,
                language: unknown_language_code(),
                description: f.description,
                content: f.content,
            },
        );
        assert(rest@ =~= orig.subrange(r@.len() as int, n as int));
    }
    r
}

/// Why embedding into an MP3 file fails when the SYLT frame cannot be
/// encoded.
pub open spec fn sylt_failure_message() -> Seq<char> {
    "Failed to insert SYLT frame"@
}

/// `edits` are the changes to the ID3v2 tag of an MP3 file that embed
/// `plan`, given the comment frames taken out of the tag and the SYLT body
/// for the synced lyrics: the comments put back with the language `XXX`;
/// a USLT frame with the unsynchronised lyrics, or the removal of the USLT
/// frames; the SYLT frame, or the removal of the SYLT frames.
pub open spec fn id3_edits(
    edits: Seq<FrameEdit>,
    comments: Seq<LanguageFrame>,
    plan: EmbedPlan,
    sylt_body: Seq<u8>,
) -> bool {
    let n = comments.len() as int;
    &&& edits.len() == n + 2
    &&& forall|i: int|
        0 <= i < n ==> (#[trigger] edits[i] matches FrameEdit::Comment(f) && relabelled(
            f,
            comments[i],
        ))
    &&& match opt_view(plan.unsynced_lyrics) {
        Some(text) => edits[n] matches FrameEdit::UnsyncedLyrics(f) && uslt_frame(f, text),
        None => edits[n] matches FrameEdit::Remove { id } && id@ == "USLT"@,
    }
    &&& match plan.synced_lyrics {
        Some(_) => edits[n + 1] matches FrameEdit::Binary { id, body } && id@ == "SYLT"@ && body@
            == sylt_body,
        None => edits[n + 1] matches FrameEdit::Remove { id } && id@ == "SYLT"@,
    }
}

/// The changes to the ID3v2 tag of an MP3 file that embed `plan`, given the
/// comment frames taken out of the tag and the timed lines of the plan's
/// synced lyrics (read by the application's LRC parser). Fails when the
/// synced lyrics cannot be encoded as a SYLT frame.
pub fn id3_lyrics_edits(
    comments: Vec<LanguageFrame>,
    plan: &EmbedPlan,
    timed_lines: &Vec<TimedLine>,
) -> (r: Result<Vec<FrameEdit>, String>)
    ensures
        match (plan.synced_lyrics, sylt_frame_of_spec(timed_lines@)) {
            (Some(_), None) => r matches Err(m) && m@ == sylt_failure_message(),
            (Some(_), Some(body)) => r matches Ok(edits) && id3_edits(edits@, comments@, *plan, body),
            (None, _) => r matches Ok(edits) && id3_edits(edits@, comments@, *plan, Seq::empty()),
        },
{
    let ghost old_comments = comments@;
    let mut edits: Vec<FrameEdit> = Vec::new();
    let relabelled_comments = relabel_comments(comments);
    let mut rest = relabelled_comments;
    let ghost relabelled_all = rest@;
    let ghost n = old_comments.len();
    while rest.len() > 0
        invariant
            relabelled_all.len() == n,
            forall|i: int| 0 <= i < n ==> relabelled(#[trigger] relabelled_all[i], old_comments[i]),
            edits@.len() + rest@.len() == n,
            rest@ == relabelled_all.subrange(edits@.len() as int, n as int),
            forall|i: int|
                0 <= i < edits@.len() ==> (#[trigger] edits@[i] matches FrameEdit::Comment(f)
                    && relabelled(f, old_comments[i])),
        decreases rest@.len(),
    {
        let ghost k = edits@.len();
        let f = rest.remove(0);
        assert(f == relabelled_all[k as int]);
        edits.push(FrameEdit::Comment(f));
        assert(rest@ =~= relabelled_all.subrange(edits@.len() as int, n as int));
    }
    match &plan.unsynced_lyrics {
        Some(text) => {
            edits.push(
                FrameEdit::UnsyncedLyrics(
                    LanguageFrame {
                        encoding: TEXT_ENCODING_UTF8,
                        language: unknown_language_code(),
                        description: String::new(),
                        content: text.clone(),
                    },
                ),
            );
        },
        None => {
            edits.push(FrameEdit::Remove { id: owned("USLT") });
        },
    }
    let ghost body: Seq<u8> = Seq::empty();
    match &plan.synced_lyrics {
        Some(_) => match sylt_frame_of(timed_lines) {
            Some(b) => {
                proof {
                    body = b@;
                }
                edits.push(FrameEdit::Binary { id: owned("SYLT"), body: b });
            },
            None => {
                return Err(owned("Failed to insert SYLT frame"));
            },
        },
        None => {
            edits.push(FrameEdit::Remove { id: owned("SYLT") });
        },
    }
    assert(id3_edits(edits@, old_comments, *plan, body));
    Ok(edits)
}

/// A change to the Vorbis comments of a FLAC file: set `key` to `value`, or
/// remove it when `value` is `None`.
pub struct VorbisEdit {
    pub key: String,
    pub value: Option<String>,
}

fn copy_text(o: &Option<String>) -> (r: Option<String>)
    ensures
        opt_view(r) == opt_view(*o),
{
    match o {
        Some(s) => Some(s.clone()),
        None => None,
    }
}

/// The changes to the Vorbis comments of a FLAC file that embed `plan`:
/// `UNSYNCEDLYRICS` holds the unsynchronised lyrics and `LYRICS` the synced
/// lyrics, each removed when there is none.
pub fn vorbis_lyrics_edits(plan: &EmbedPlan) -> (r: Vec<VorbisEdit>)
    ensures
        r@.len() == 2,
        r@[0].key@ == "UNSYNCEDLYRICS"@,
        opt_view(r@[0].value) == opt_view(plan.unsynced_lyrics),
        r@[1].key@ == "LYRICS"@,
        opt_view(r@[1].value) == opt_view(plan.synced_lyrics),
{
    let mut r: Vec<VorbisEdit> = Vec::new();
    r.push(VorbisEdit { key: owned("UNSYNCEDLYRICS"), value: copy_text(&plan.unsynced_lyrics) });
    r.push(VorbisEdit { key: owned("LYRICS"), value: copy_text(&plan.synced_lyrics) });
    r
}

/// The result of embedding once it was attempted: success with the audio
/// file's path, or the failure.
pub fn complete_embed_export(track_path: String, embedded: Result<(), String>) -> (r: Result<
    ExportResult,
    ExportError,
>)
    ensures
        match embedded {
            Ok(()) => r matches Ok(res) && res@ == (ResultView {
                format: ExportFormat::Embedded,
                path: Some(track_path@),
                status: StatusView::Success,
            }),
            Err(m) => r matches Err(e) && e@ == ErrorView::Embed(m@),
        },
{
    match embedded {
        Ok(()) => Ok(
            ExportResult {
                format: ExportFormat::Embedded,
                path: Some(track_path),
                status: ExportStatus::Success,
            },
        ),
        Err(m) => Err(ExportError::EmbedError(m)),
    }
}

/// Embedding stores the plain lyrics as the unsynchronised lyrics and, for
/// a track that is not instrumental, the LRC synced lyrics (never the
/// word-synced ones) as the synced lyrics; an instrumental track gets the
/// instrumental marker instead. Empty or missing texts are removed.
pub proof fn law_embedded_texts(r: ExportAction, track: PersistentTrack, parsed: ParsedLyricsfile)
    requires
        plans_embedded_export(r, track, parsed),
    ensures
        r matches ExportAction::Embed { plan, .. } ==> ({
            &&& match parsed.plain_lyrics {
                Some(s) => if s@.len() == 0 {
                    plan.unsynced_lyrics is None
                } else {
                    opt_view(plan.unsynced_lyrics) == Some(s@)
                },
                None => plan.unsynced_lyrics is None,
            }
            &&& parsed.is_instrumental ==> opt_view(plan.synced_lyrics) == Some(INSTRUMENTAL_LRC@)
            &&& !parsed.is_instrumental ==> match parsed.synced_lyrics {
                Some(s) => if s@.len() == 0 {
                    plan.synced_lyrics is None
                } else {
                    opt_view(plan.synced_lyrics) == Some(s@)
                },
                None => plan.synced_lyrics is None,
            }
        }),
{
    reveal_strlit("[au: instrumental]");
    assert(INSTRUMENTAL_LRC@.len() > 0);
}

/// Tracks whose lyrics differ only in their word-synced form embed the same
/// texts into the same file.
pub proof fn law_embedding_ignores_word_synced_lyrics(
    r1: ExportAction,
    r2: ExportAction,
    track: PersistentTrack,
    a: ParsedLyricsfile,
    b: ParsedLyricsfile,
)
    requires
        plans_embedded_export(r1, track, a),
        plans_embedded_export(r2, track, b),
        a.is_instrumental == b.is_instrumental,
        opt_view(a.plain_lyrics) == opt_view(b.plain_lyrics),
        opt_view(a.synced_lyrics) == opt_view(b.synced_lyrics),
    ensures
        r1 matches ExportAction::Embed { plan: p1, .. } ==> (r2 matches ExportAction::Embed {
            plan: p2,
            ..
        } && p1.target == p2.target && opt_view(p1.unsynced_lyrics) == opt_view(p2.unsynced_lyrics)
            && opt_view(p1.synced_lyrics) == opt_view(p2.synced_lyrics)),
{
    law_embedded_texts(r1, track, a);
    law_embedded_texts(r2, track, b);
}

/// MP3 and FLAC files are told by their extension, in any letter case;
/// lyrics are embedded into no other kind of file, and exporting them into
/// such a file succeeds at once, with the file's path.
pub proof fn law_embedding_by_extension(r: ExportAction, track: PersistentTrack, parsed: ParsedLyricsfile)
    requires
        plans_embedded_export(r, track, parsed),
    ensures
        ends_with_ignoring_ascii_case(track.file_path@, ".mp3"@) ==> (r matches ExportAction::Embed {
            plan,
            ..
        } && plan.target == EmbedTarget::Mp3),
        ends_with_ignoring_ascii_case(track.file_path@, ".flac"@) && !ends_with_ignoring_ascii_case(
            track.file_path@,
            ".mp3"@,
        ) ==> (r matches ExportAction::Embed { plan, .. } && plan.target == EmbedTarget::Flac),
        !ends_with_ignoring_ascii_case(track.file_path@, ".mp3"@) && !ends_with_ignoring_ascii_case(
            track.file_path@,
            ".flac"@,
        ) ==> (r matches ExportAction::Done(res) && res@ == (ResultView {
            format: ExportFormat::Embedded,
            path: Some(track.file_path@),
            status: StatusView::Success,
        })),
{
}

} // verus!
