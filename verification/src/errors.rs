//! Structured failures of a reconciliation pass.
//!
//! Any error met while processing one scanned file aborts the whole pass;
//! only the orphan sweep catches failures per entry.  The variants keep the
//! retryable filesystem cases apart from storage and encoder faults.

use vstd::prelude::*;
use crate::model::MediaKind;
use crate::paths::spec_media_kind;
use crate::paths::media_kind_of;

verus! {

/// What went wrong while cataloguing.
#[derive(Clone, Debug)]
pub enum AppError {
    /// A file or its metadata could not be read.
    IoError { detail: String },
    /// A read failure surfaced while hashing a file's bytes.
    HashError { detail: String },
    /// A catalog read or write failed.
    StorageError { detail: String },
    /// A thumbnail was requested for a file that is neither image nor video.
    UnsupportedMediaError { path: String },
    /// The external encoder failed or produced no output.
    EncodingError { detail: String },
}

/// The text that [`AppError::message`] renders for an error.
pub open spec fn spec_message(e: AppError) -> Seq<char> {
    match e {
        AppError::IoError { detail } => "I/O error: "@ + detail@,
        AppError::HashError { detail } => "hash error: "@ + detail@,
        AppError::StorageError { detail } => "storage error: "@ + detail@,
        AppError::UnsupportedMediaError { path } => "unsupported media file: "@ + path@,
        AppError::EncodingError { detail } => "encoding error: "@ + detail@,
    }
}

impl AppError {
    /// Human-readable description of the failure.
    pub fn message(&self) -> (r: String)
        ensures
            r@ == spec_message(*self),
    {
        match self {
            AppError::IoError { detail } => String::from_str("I/O error: ").concat(
                detail.as_str(),
            ),
            AppError::HashError { detail } => String::from_str("hash error: ").concat(
                detail.as_str(),
            ),
            AppError::StorageError { detail } => String::from_str("storage error: ").concat(
                detail.as_str(),
            ),
            AppError::UnsupportedMediaError { path } => String::from_str(
                "unsupported media file: ",
            ).concat(path.as_str()),
            AppError::EncodingError { detail } => String::from_str("encoding error: ").concat(
                detail.as_str(),
            ),
        }
    }
}

/// Whether `e` reports the file at `p` as unsupported for thumbnails.
pub open spec fn spec_is_unsupported_media(e: AppError, p: Seq<char>) -> bool {
    match e {
        AppError::UnsupportedMediaError { path } => path@ == p,
        _ => false,
    }
}

/// Which encoder a thumbnail for `path` needs.  A file that is neither
/// image nor video has no thumbnail: exactly those are refused.
pub fn thumbnail_source_kind(path: &str) -> (r: Result<MediaKind, AppError>)
    ensures
        r is Ok <==> spec_media_kind(path@) != MediaKind::Unknown,
        match r {
            Result::Ok(k) => k == spec_media_kind(path@),
            Result::Err(e) => spec_is_unsupported_media(e, path@),
        },
{
    let kind = media_kind_of(path);
    match kind {
        MediaKind::Unknown => Result::Err(
            AppError::UnsupportedMediaError { path: path.to_owned() },
        ),
        _ => Result::Ok(kind),
    }
}

} // verus!
