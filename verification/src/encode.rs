//! Byte-to-text encoding for handing catalog entries and their thumbnail
//! bytes to a viewer.

use vstd::prelude::*;
use crate::model::{CatalogEntry, MediaKind};

verus! {

/// The standard base64 encoding of a byte string.  Left uninterpreted: it is
/// a fixed function of the bytes alone.
pub uninterp spec fn base64_of(bytes: Seq<u8>) -> Seq<char>;

/// Relies on `base64`'s standard engine `encode`: the text depends on the
/// input bytes alone, and an empty input gives an empty text.  The encoder
/// panics when the output length would not fit a `usize`, so the input is
/// kept clear of that bound.
#[verifier::external_body]
fn base64_standard(bytes: &[u8]) -> (r: String)
    requires
        bytes@.len() <= usize::MAX / 2,
    ensures
        r@ == base64_of(bytes@),
        bytes@.len() == 0 ==> r@.len() == 0,
{
    base64::Engine::encode(&base64::engine::general_purpose::STANDARD, bytes)
}

/// The data URL under which encoded image bytes are handed to a viewer.
pub open spec fn spec_image_data_url(bytes: Seq<u8>) -> Seq<char> {
    "data:image/"@ + "webp"@ + ";base64,"@ + base64_of(bytes)
}

/// Shared assembly of the data URL.
fn data_url_from(bytes: &[u8]) -> (r: String)
    requires
        bytes@.len() <= usize::MAX / 2,
    ensures
        r@ == spec_image_data_url(bytes@),
{
    let encoded = base64_standard(bytes);
    let mut s = String::from_str("data:image/");
    s.append("webp");
    s.append(";base64,");
    s.concat(encoded.as_str())
}

/// Base64 data URL for thumbnail bytes, in the fixed thumbnail image format.
pub fn generate_base64_from_image(image: Vec<u8>) -> (r: String)
    requires
        image@.len() <= usize::MAX / 2,
    ensures
        r@ == spec_image_data_url(image@),
{
    data_url_from(image.as_slice())
}

/// One catalog entry as handed to a viewer: its metadata together with its
/// thumbnail as a data URL.
#[derive(Debug)]
pub struct MediaItemResponse {
    pub id: Option<i64>,
    pub path: String,
    pub file_name: String,
    pub file_size_bytes: u64,
    pub file_extension: String,
    pub media_kind: MediaKind,
    pub video_length_ms: Option<u64>,
    pub thumbnail_base64: String,
}

/// Assemble the viewer's row for one entry.  The caller passes the
/// thumbnail bytes it found for the entry — or its stand-in bytes for a
/// broken thumbnail — and gets them back encoded as a data URL beside the
/// entry's metadata.
pub fn media_item_response(entry: &CatalogEntry, thumbnail_bytes: &Vec<u8>) -> (r:
    MediaItemResponse)
    requires
        thumbnail_bytes@.len() <= usize::MAX / 2,
    ensures
        r.id == entry.id,
        r.path@ == entry.path@,
        r.file_name@ == entry.file_name@,
        r.file_size_bytes == entry.file_size_bytes,
        r.file_extension@ == entry.file_extension@,
        r.media_kind == entry.media_kind,
        r.video_length_ms == entry.video_length_ms,
        r.thumbnail_base64@ == spec_image_data_url(thumbnail_bytes@),
{
    MediaItemResponse {
        id: entry.id,
        path: entry.path.clone(),
        file_name: entry.file_name.clone(),
        file_size_bytes: entry.file_size_bytes,
        file_extension: entry.file_extension.clone(),
        media_kind: entry.media_kind,
        video_length_ms: entry.video_length_ms,
        thumbnail_base64: data_url_from(thumbnail_bytes.as_slice()),
    }
}

} // verus!
