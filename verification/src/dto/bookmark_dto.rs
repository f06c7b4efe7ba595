//! Bookmark payloads.

use crate::models::bookmark::{Bookmark, BookmarkDraft, BookmarkPatch};
use vstd::prelude::*;

verus! {

#[derive(Debug)]
pub struct BookmarkDto {
    pub id: i64,
    pub timestamp_ms: i64,
    pub label: String,
    pub note: Option<String>,
    pub created_at_ms: i64,
}

impl From<Bookmark> for BookmarkDto {
    fn from(bookmark: Bookmark) -> (dto: Self) {
        BookmarkDto {
            id: bookmark.id,
            timestamp_ms: bookmark.timestamp_ms,
            label: bookmark.label,
            note: bookmark.note,
            created_at_ms: bookmark.created_at_ms,
        }
    }
}

impl vstd::std_specs::convert::FromSpecImpl<Bookmark> for BookmarkDto {
    open spec fn obeys_from_spec() -> bool {
        true
    }

    open spec fn from_spec(bookmark: Bookmark) -> Self {
        BookmarkDto {
            id: bookmark.id,
            timestamp_ms: bookmark.timestamp_ms,
            label: bookmark.label,
            note: bookmark.note,
            created_at_ms: bookmark.created_at_ms,
        }
    }
}

#[derive(Debug)]
pub struct BookmarkListResponse {
    pub bookmarks: Vec<BookmarkDto>,
}

#[derive(Debug)]
pub struct CreateBookmarkRequest {
    pub timestamp_ms: i64,
    pub label: String,
    pub note: Option<String>,
}

impl From<CreateBookmarkRequest> for BookmarkDraft {
    fn from(request: CreateBookmarkRequest) -> (draft: Self) {
        BookmarkDraft { timestamp_ms: request.timestamp_ms, label: request.label, note: request.note }
    }
}

impl vstd::std_specs::convert::FromSpecImpl<CreateBookmarkRequest> for BookmarkDraft {
    open spec fn obeys_from_spec() -> bool {
        true
    }

    open spec fn from_spec(request: CreateBookmarkRequest) -> Self {
        BookmarkDraft { timestamp_ms: request.timestamp_ms, label: request.label, note: request.note }
    }
}

#[derive(Debug)]
pub struct UpdateBookmarkRequest {
    pub timestamp_ms: Option<i64>,
    pub label: Option<String>,
    /// Present and null clears the note, absent leaves it alone.
    pub note: Option<Option<String>>,
}

impl Default for UpdateBookmarkRequest {
    /// A request that changes nothing.
    fn default() -> (request: Self)
        ensures
            request.timestamp_ms is None,
            request.label is None,
            request.note is None,
    {
        UpdateBookmarkRequest { timestamp_ms: None, label: None, note: None }
    }
}

impl From<UpdateBookmarkRequest> for BookmarkPatch {
    fn from(request: UpdateBookmarkRequest) -> (patch: Self) {
        BookmarkPatch { timestamp_ms: request.timestamp_ms, label: request.label, note: request.note }
    }
}

impl vstd::std_specs::convert::FromSpecImpl<UpdateBookmarkRequest> for BookmarkPatch {
    open spec fn obeys_from_spec() -> bool {
        true
    }

    open spec fn from_spec(request: UpdateBookmarkRequest) -> Self {
        BookmarkPatch { timestamp_ms: request.timestamp_ms, label: request.label, note: request.note }
    }
}

} // verus!
