use base64::Engine;
use media_catalog::digest::hash_bytes;
use media_catalog::encode::{generate_base64_from_image, media_item_response};
use media_catalog::model::{CatalogEntry, MediaKind};

#[test]
fn digest_agrees_with_the_hash_crate() {
    let data = b"the quick brown fox".to_vec();
    let ours = hash_bytes(&data);
    let theirs = blake3::hash(&data).to_hex().to_string();
    assert_eq!(ours, theirs);
}

#[test]
fn digest_is_a_64_char_token_not_the_input() {
    let data = b"abc".to_vec();
    let d = hash_bytes(&data);
    assert_eq!(d.len(), 64);
    assert_ne!(d.as_bytes(), data.as_slice());
    assert!(d.bytes().all(|b| b.is_ascii_hexdigit()));
}

#[test]
fn equal_bytes_hash_alike_different_bytes_do_not() {
    let a = hash_bytes(&vec![1, 2, 3]);
    let b = hash_bytes(&vec![1, 2, 3]);
    let c = hash_bytes(&vec![1, 2, 4]);
    assert_eq!(a, b);
    assert_ne!(a, c);
}

#[test]
fn data_url_wraps_standard_base64() {
    let url = generate_base64_from_image(vec![1, 2, 3]);
    assert_eq!(url, "data:image/webp;base64,AQID");
}

#[test]
fn data_url_agrees_with_the_base64_crate() {
    let bytes: Vec<u8> = (0u8..64).collect();
    let url = generate_base64_from_image(bytes.clone());
    let expected = format!(
        "data:image/webp;base64,{}",
        base64::engine::general_purpose::STANDARD.encode(&bytes)
    );
    assert_eq!(url, expected);
}

#[test]
fn empty_image_encodes_to_bare_header() {
    assert_eq!(generate_base64_from_image(Vec::new()), "data:image/webp;base64,");
}

#[test]
fn response_row_carries_entry_and_encoded_thumbnail() {
    let entry = CatalogEntry {
        id: Some(7),
        path: "/lib/clip.mp4".to_string(),
        file_name: "clip.mp4".to_string(),
        file_size_bytes: 4096,
        file_extension: "mp4".to_string(),
        media_kind: MediaKind::Video,
        video_length_ms: Some(90_000),
        content_hash: "h9".to_string(),
        created_at_ms: 1,
        updated_at_ms: 2,
    };
    let row = media_item_response(&entry, &vec![1, 2, 3]);
    assert_eq!(row.id, Some(7));
    assert_eq!(row.path, "/lib/clip.mp4");
    assert_eq!(row.file_name, "clip.mp4");
    assert_eq!(row.file_size_bytes, 4096);
    assert_eq!(row.file_extension, "mp4");
    assert_eq!(row.media_kind, MediaKind::Video);
    assert_eq!(row.video_length_ms, Some(90_000));
    assert_eq!(row.thumbnail_base64, "data:image/webp;base64,AQID");
}
