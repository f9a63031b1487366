//! Data model of the catalog: entries, scanned files, and their ghost views.
//!
//! Timestamps are integer milliseconds since the Unix epoch; the one-second
//! tolerance window of the reconciliation engine is `TOLERANCE_MS`.  Video
//! durations are integer milliseconds as well.

use vstd::prelude::*;

verus! {

/// Slack allowed between an entry's recorded modification time and the live
/// file's, absorbing filesystem timestamp rounding (one second).
pub const TOLERANCE_MS: i64 = 1000;

/// What kind of media a file holds, decided by its extension.
#[derive(Clone, Copy, Debug, PartialEq, Eq, Structural)]
pub enum MediaKind {
    Image,
    Video,
    Unknown,
}

/// One persisted catalog record describing a media file and its last-known
/// filesystem state.
#[derive(Debug)]
pub struct CatalogEntry {
    /// Storage-assigned identifier; `None` until the entry is first inserted.
    pub id: Option<i64>,
    /// Absolute path; unique among all live entries.
    pub path: String,
    /// Basename of `path`, kept in sync with it.
    pub file_name: String,
    /// Exact byte length, used as a cheap change signal.
    pub file_size_bytes: u64,
    /// Extension of `path` (without the dot), or `unknown`.
    pub file_extension: String,
    pub media_kind: MediaKind,
    /// Duration in milliseconds; present only for videos.
    pub video_length_ms: Option<u64>,
    /// Digest of the full file bytes; shared by true duplicates.
    pub content_hash: String,
    /// Set once, when the entry is first inserted.
    pub created_at_ms: i64,
    /// The file's modification time as of the last reconciliation.
    pub updated_at_ms: i64,
}

/// Ghost view of a [`CatalogEntry`].
pub ghost struct EntryModel {
    pub id: Option<int>,
    pub path: Seq<char>,
    pub file_name: Seq<char>,
    pub file_size_bytes: int,
    pub file_extension: Seq<char>,
    pub media_kind: MediaKind,
    pub video_length_ms: Option<int>,
    pub content_hash: Seq<char>,
    pub created_at_ms: int,
    pub updated_at_ms: int,
}

/// Ghost image of an `Option` of an integer.
pub open spec fn opt_int<T: Integer>(o: Option<T>) -> Option<int> {
    match o {
        Option::Some(v) => Option::Some(v as int),
        Option::None => Option::None,
    }
}

impl Clone for CatalogEntry {
    /// A clone keeps every field, so it equals the value it was made from.
    fn clone(&self) -> (r: Self)
        ensures
            r == *self,
    {
        CatalogEntry {
            id: self.id,
            path: self.path.clone(),
            file_name: self.file_name.clone(),
            file_size_bytes: self.file_size_bytes,
            file_extension: self.file_extension.clone(),
            media_kind: self.media_kind,
            video_length_ms: self.video_length_ms,
            content_hash: self.content_hash.clone(),
            created_at_ms: self.created_at_ms,
            updated_at_ms: self.updated_at_ms,
        }
    }
}

impl View for CatalogEntry {
    type V = EntryModel;

    open spec fn view(&self) -> EntryModel {
        EntryModel {
            id: opt_int(self.id),
            path: self.path@,
            file_name: self.file_name@,
            file_size_bytes: self.file_size_bytes as int,
            file_extension: self.file_extension@,
            media_kind: self.media_kind,
            video_length_ms: opt_int(self.video_length_ms),
            content_hash: self.content_hash@,
            created_at_ms: self.created_at_ms as int,
            updated_at_ms: self.updated_at_ms as int,
        }
    }
}

/// A file met during the directory walk: the facts the walker can read
/// without opening the file.
#[derive(Clone, Debug)]
pub struct FileStat {
    pub path: String,
    pub size_bytes: u64,
    /// Modification time in milliseconds since the Unix epoch.
    pub modified_at_ms: i64,
}

/// Ghost view of a [`FileStat`].
pub ghost struct FileModel {
    pub path: Seq<char>,
    pub size_bytes: int,
    pub modified_at_ms: int,
}

impl View for FileStat {
    type V = FileModel;

    open spec fn view(&self) -> FileModel {
        FileModel {
            path: self.path@,
            size_bytes: self.size_bytes as int,
            modified_at_ms: self.modified_at_ms as int,
        }
    }
}

/// Encoded thumbnail bytes, keyed one-to-one by the owning entry's id and
/// overwritten wholesale on regeneration.
#[derive(Clone, Debug)]
pub struct Thumbnail {
    pub media_id: i64,
    pub data: Vec<u8>,
    pub mime_type: String,
}

/// A label attached to catalog entries.
#[derive(Clone, Debug)]
pub struct Tag {
    pub id: Option<i64>,
    pub name: String,
}

/// A position bookmarked inside one media item.
#[derive(Clone, Debug)]
pub struct Bookmark {
    pub id: Option<i64>,
    pub media_id: i64,
    pub description: String,
    pub timestamp: i64,
}

/// Metadata handed back to a caller after one file was catalogued.
#[derive(Clone, Debug)]
pub struct MediaMetadata {
    pub id: i64,
    pub duration: i32,
    pub thumbnail_base64: String,
    pub thumbnail_size: i32,
}

/// Counters describing what one reconciliation pass did.
#[derive(Clone, Copy, Debug, PartialEq, Eq, Structural)]
pub struct UpdateStats {
    pub scanned_count: i32,
    pub deleted_count: i32,
    pub renamed_count: i32,
    pub processed_video_count: i32,
    pub processed_image_count: i32,
}

impl UpdateStats {
    /// Fresh counters, all zero.
    pub fn new() -> (s: UpdateStats)
        ensures
            s == (UpdateStats {
                scanned_count: 0,
                deleted_count: 0,
                renamed_count: 0,
                processed_video_count: 0,
                processed_image_count: 0,
            }),
    {
        UpdateStats {
            scanned_count: 0,
            deleted_count: 0,
            renamed_count: 0,
            processed_video_count: 0,
            processed_image_count: 0,
        }
    }
}

/// Whether two timestamps lie within the tolerance window of each other.
pub open spec fn within_tolerance(recorded_ms: int, file_ms: int) -> bool {
    -(TOLERANCE_MS as int) <= recorded_ms - file_ms <= TOLERANCE_MS as int
}

/// Whether a recorded entry still matches the live file at its path: size
/// equal and modification time within tolerance.  A file that fails this is
/// classified modified.
pub open spec fn entry_matches_file(e: EntryModel, f: FileModel) -> bool {
    &&& within_tolerance(e.updated_at_ms, f.modified_at_ms)
    &&& e.file_size_bytes == f.size_bytes
}

/// Exec check of [`within_tolerance`]; wide arithmetic avoids overflow.
pub fn check_within_tolerance(recorded_ms: i64, file_ms: i64) -> (r: bool)
    ensures
        r == within_tolerance(recorded_ms as int, file_ms as int),
{
    let delta: i128 = (recorded_ms as i128) - (file_ms as i128);
    -(TOLERANCE_MS as i128) <= delta && delta <= TOLERANCE_MS as i128
}

/// Exec check of [`entry_matches_file`].
pub fn check_entry_matches_file(e: &CatalogEntry, f: &FileStat) -> (r: bool)
    ensures
        r == entry_matches_file(e@, f@),
{
    e.file_size_bytes == f.size_bytes && check_within_tolerance(e.updated_at_ms, f.modified_at_ms)
}

} // verus!
