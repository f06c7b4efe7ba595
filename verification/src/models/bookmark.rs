//! A named moment on the timeline.
//!
//! Bookmarks address a point in time rather than a segment, because the interesting moment is often
//! marked while the segment covering it is still open, and because the timestamp remains meaningful
//! after the surrounding audio has been pruned.

use crate::error::{AppError, AppResult};
use crate::util::text::{lemma_trim_is_idempotent, trim, trim_spec};
use vstd::prelude::*;

verus! {

/// Longest label accepted. Enough for a sentence, short enough to draw beside a marker.
pub const LABEL_MAX_CHARS: usize = 120;

/// Longest note accepted, for the detail that does not fit in a label.
pub const NOTE_MAX_CHARS: usize = 2000;

pub const MISSING_LABEL: &'static str = "a bookmark needs a label";

pub const LABEL_TOO_LONG: &'static str = "the label is too long, keep it under 120 characters";

pub const NOTE_TOO_LONG: &'static str = "the note is too long, keep it under 2000 characters";

#[derive(Debug, Clone, PartialEq, Eq)]
pub struct Bookmark {
    pub id: i64,
    pub timestamp_ms: i64,
    pub label: String,
    pub note: Option<String>,
    pub created_at_ms: i64,
}

/// Values needed to create a bookmark, before the database assigns an id.
#[derive(Debug, Clone, PartialEq, Eq)]
pub struct BookmarkDraft {
    pub timestamp_ms: i64,
    pub label: String,
    pub note: Option<String>,
}

/// The text of an optional string.
pub open spec fn text_of(note: Option<String>) -> Option<Seq<char>> {
    match note {
        Some(text) => Some(text@),
        None => None,
    }
}

/// A note is trimmed, and a note that trims to nothing is no note.
pub open spec fn clean_note(note: Option<Seq<char>>) -> Option<Seq<char>> {
    match note {
        Some(text) => if trim_spec(text).len() == 0 {
            None
        } else {
            Some(trim_spec(text))
        },
        None => None,
    }
}

/// What sanitising a label and a note gives: the trimmed label and the cleaned note, or the message
/// of the first problem found. Over long text is refused, never cut short.
pub open spec fn sanitise_spec(label: Seq<char>, note: Option<Seq<char>>) -> Result<
    (Seq<char>, Option<Seq<char>>),
    Seq<char>,
> {
    let label = trim_spec(label);
    let note = clean_note(note);
    if label.len() == 0 {
        Err(MISSING_LABEL@)
    } else if label.len() > LABEL_MAX_CHARS {
        Err(LABEL_TOO_LONG@)
    } else if note matches Some(text) && text.len() > NOTE_MAX_CHARS {
        Err(NOTE_TOO_LONG@)
    } else {
        Ok((label, note))
    }
}

/// `result` is what sanitising a draft with these values must give.
pub open spec fn sanitised_as(
    result: AppResult<BookmarkDraft>,
    timestamp_ms: i64,
    label: Seq<char>,
    note: Option<Seq<char>>,
) -> bool {
    match sanitise_spec(label, note) {
        Ok((label, note)) => result matches Ok(draft) && draft.timestamp_ms == timestamp_ms
            && draft.label@ == label && text_of(draft.note) == note,
        Err(message) => result matches Err(AppError::BadRequest(m)) && m@ == message,
    }
}

fn string_len_of(s: &String) -> (n: usize)
    ensures
        n == s@.len(),
{
    let chars = crate::util::text::chars_of(s.as_str());
    chars.len()
}

impl BookmarkDraft {
    /// Trim the text and reject anything that could not be shown usefully.
    ///
    /// Over long text is rejected rather than truncated. Silently discarding the end of what somebody
    /// typed is worse than telling them it was too long, which is the opposite of how the settings are
    /// handled: a number out of range has an obvious nearest sensible value, a sentence does not.
    pub fn sanitised(self) -> (result: AppResult<Self>)
        ensures
            sanitised_as(result, self.timestamp_ms, self.label@, text_of(self.note)),
    {
        let label = trim(self.label.as_str());
        if string_len_of(&label) == 0 {
            return Err(AppError::bad_request(MISSING_LABEL));
        }
        if string_len_of(&label) > LABEL_MAX_CHARS {
            return Err(AppError::bad_request(LABEL_TOO_LONG));
        }
        let note = match self.note {
            Some(value) => {
                let trimmed = trim(value.as_str());
                if string_len_of(&trimmed) == 0 {
                    None
                } else {
                    Some(trimmed)
                }
            },
            None => None,
        };
        let too_long = match &note {
            Some(text) => string_len_of(text) > NOTE_MAX_CHARS,
            None => false,
        };
        if too_long {
            return Err(AppError::bad_request(NOTE_TOO_LONG));
        }
        Ok(BookmarkDraft { timestamp_ms: self.timestamp_ms, label, note })
    }
}

/// A partial update to an existing bookmark.
#[derive(Debug, Clone)]
pub struct BookmarkPatch {
    pub timestamp_ms: Option<i64>,
    pub label: Option<String>,
    /// `Some(None)` clears the note.
    pub note: Option<Option<String>>,
}

impl Default for BookmarkPatch {
    fn default() -> (patch: Self)
        ensures
            patch.timestamp_ms is None,
            patch.label is None,
            patch.note is None,
    {
        BookmarkPatch { timestamp_ms: None, label: None, note: None }
    }
}

/// The label a patch leaves: its own where it sets one, else the existing one.
pub open spec fn patched_label(patch: BookmarkPatch, existing: Bookmark) -> Seq<char> {
    match patch.label {
        Some(label) => label@,
        None => existing.label@,
    }
}

/// The note a patch leaves: its own where it sets one (which may be none), else the existing one.
pub open spec fn patched_note(patch: BookmarkPatch, existing: Bookmark) -> Option<Seq<char>> {
    match patch.note {
        Some(note) => text_of(note),
        None => text_of(existing.note),
    }
}

pub open spec fn patched_timestamp(patch: BookmarkPatch, existing: Bookmark) -> i64 {
    match patch.timestamp_ms {
        Some(t) => t,
        None => existing.timestamp_ms,
    }
}

fn copy_text(note: &Option<String>) -> (copy: Option<String>)
    ensures
        text_of(copy) == text_of(*note),
{
    match note {
        Some(text) => Some(text.clone()),
        None => None,
    }
}

impl BookmarkPatch {
    pub fn is_empty(&self) -> (empty: bool)
        ensures
            empty == (self.timestamp_ms is None && self.label is None && self.note is None),
    {
        self.timestamp_ms.is_none() && self.label.is_none() && self.note.is_none()
    }

    /// Apply to an existing bookmark and validate the result.
    pub fn apply_to(&self, existing: &Bookmark) -> (result: AppResult<BookmarkDraft>)
        ensures
            sanitised_as(
                result,
                patched_timestamp(*self, *existing),
                patched_label(*self, *existing),
                patched_note(*self, *existing),
            ),
    {
        let timestamp_ms = match self.timestamp_ms {
            Some(t) => t,
            None => existing.timestamp_ms,
        };
        let label = match &self.label {
            Some(label) => label.clone(),
            None => existing.label.clone(),
        };
        let note = match &self.note {
            Some(note) => copy_text(note),
            None => copy_text(&existing.note),
        };
        BookmarkDraft { timestamp_ms, label, note }.sanitised()
    }
}

/// Sanitising is idempotent: a draft that came out of it passes again unchanged.
pub proof fn lemma_sanitising_is_idempotent(label: Seq<char>, note: Option<Seq<char>>)
    ensures
        sanitise_spec(label, note) matches Ok((clean_label, clean)) ==> sanitise_spec(
            clean_label,
            clean,
        ) == Ok::<(Seq<char>, Option<Seq<char>>), Seq<char>>((clean_label, clean)),
{
    lemma_trim_is_idempotent(label);
    if let Some(text) = note {
        lemma_trim_is_idempotent(text);
    }
}

/// A patch touches only what it sets: each field it leaves unset comes from the existing bookmark.
pub proof fn lemma_patch_touches_only_what_it_sets(patch: BookmarkPatch, existing: Bookmark)
    ensures
        patch.timestamp_ms is None ==> patched_timestamp(patch, existing) == existing.timestamp_ms,
        patch.label is None ==> patched_label(patch, existing) == existing.label@,
        patch.note is None ==> patched_note(patch, existing) == text_of(existing.note),
        patch.note == Some(None::<String>) ==> patched_note(patch, existing) is None,
{
}

} // verus!
