//! The decisions of a walk through a music directory: which entries are
//! audio files, which are passed over, and which are walked in turn.

use crate::text::{chars_of, same_text};
use vstd::prelude::*;

verus! {

/// What `str::to_lowercase` makes of a string: its lowercase equivalent by
/// the Unicode rules, which this crate does not spell out.
pub uninterp spec fn lowercased(s: Seq<char>) -> Seq<char>;

/// Calls `str::to_lowercase`. The result is a function of the characters of
/// `s` alone; the contract gives it its name and claims nothing else.
#[verifier::external_body]
fn to_lowercase(s: &str) -> (r: String)
    ensures
        r@ == lowercased(s@),
{
    s.to_lowercase()
}

/// Whether `lower` is one of the extensions of the audio formats that are
/// indexed, `flac` and `mp3`.
pub open spec fn audio_extension(lower: Seq<char>) -> bool {
    lower == "flac"@ || lower == "mp3"@
}

/// What to do with one entry of a directory.
#[derive(Debug, Clone, Copy, PartialEq, Eq, Structural)]
pub enum EntryAction {
    /// The entry is an audio file: its path is kept.
    Keep,
    /// The entry is a file of another kind: it is passed over.
    Skip,
    /// The entry is no file: it is walked as a directory.
    Descend,
}

/// The action for an entry that is a file or not, with the extension of its
/// name if it has one, once that extension is in lower case.
pub open spec fn action_for(is_file: bool, lower: Option<Seq<char>>) -> EntryAction {
    if !is_file {
        EntryAction::Descend
    } else if lower is Some && audio_extension(lower->0) {
        EntryAction::Keep
    } else {
        EntryAction::Skip
    }
}

/// The lowercase form of an optional extension.
pub open spec fn lowercased_view(extension: Option<&str>) -> Option<Seq<char>> {
    match extension {
        Some(e) => Some(lowercased(e@)),
        None => None,
    }
}

/// Whether `lower`, an extension already in lower case, is that of an
/// audio format that is indexed.
pub fn is_audio_extension(lower: &str) -> (r: bool)
    ensures
        r == audio_extension(lower@),
{
    let v = chars_of(lower);
    same_text("flac", &v) || same_text("mp3", &v)
}

/// Whether `extension` is, in whatever case, that of an audio format that
/// is indexed.
pub fn has_audio_extension(extension: &str) -> (r: bool)
    ensures
        r == audio_extension(lowercased(extension@)),
{
    let lower = to_lowercase(extension);
    is_audio_extension(lower.as_str())
}

/// Decides what a directory walk does with one entry: a file with an audio
/// extension is kept, any other file passed over, anything else walked.
pub fn entry_action(is_file: bool, extension: Option<&str>) -> (r: EntryAction)
    ensures
        r == action_for(is_file, lowercased_view(extension)),
{
    if !is_file {
        EntryAction::Descend
    } else {
        match extension {
            Some(e) => {
                if has_audio_extension(e) {
                    EntryAction::Keep
                } else {
                    EntryAction::Skip
                }
            },
            None => EntryAction::Skip,
        }
    }
}

} // verus!
