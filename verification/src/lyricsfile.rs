//! The parsed content of a lyrics file and the track it belongs to.

use vstd::prelude::*;
use crate::text::{is_blank, is_blank_str, opt_view};

verus! {

/// The LRC text that marks a track as instrumental.
pub const INSTRUMENTAL_LRC: &'static str = "[au: instrumental]";

/// The lyrics of a track, in each of the forms a lyrics file can hold.
pub struct ParsedLyricsfile {
    pub plain_lyrics: Option<String>,
    pub synced_lyrics: Option<String>,
    pub word_synced_lyrics: Option<String>,
    pub is_instrumental: bool,
}

/// A track of the library, as far as exporting its lyrics is concerned.
pub struct PersistentTrack {
    pub file_path: String,
}

/// The text of a lyrics field, when it is present and not blank.
pub open spec fn usable_text(field: Option<String>) -> Option<Seq<char>> {
    match field {
        Some(s) => if is_blank(s@) {
            None
        } else {
            Some(s@)
        },
        None => None,
    }
}


/// A copy of a lyrics field, when it is present and not blank.
pub fn usable_text_of(field: &Option<String>) -> (r: Option<String>)
    ensures
        opt_view(r) == usable_text(*field),
{
    match field {
        Some(s) => if is_blank_str(s.as_str()) {
            None
        } else {
            Some(s.clone())
        },
        None => None,
    }
}

} // verus!
