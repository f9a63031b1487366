use media_catalog::config::{AppConfig, AppConfigDto};
use media_catalog::errors::{thumbnail_source_kind, AppError};
use media_catalog::model::MediaKind;
use media_catalog::paths::{
    file_name_of, get_db_path, get_extension, is_hidden_entry, is_image_file, is_video_file,
    media_kind_of, should_skip_directory,
};

#[test]
fn extension_after_last_dot_of_basename() {
    assert_eq!(get_extension("/lib/photo.JPG"), "JPG");
    assert_eq!(get_extension("/lib/archive.tar.gz"), "gz");
    assert_eq!(get_extension("plain.png"), "png");
}

#[test]
fn extension_unknown_when_absent() {
    assert_eq!(get_extension("/lib/noext"), "unknown");
    assert_eq!(get_extension("/lib/.gitignore"), "unknown");
    assert_eq!(get_extension("/dotted.dir/noext"), "unknown");
}

#[test]
fn file_name_is_text_after_last_slash() {
    assert_eq!(file_name_of("/lib/sub/clip.mp4"), "clip.mp4");
    assert_eq!(file_name_of("bare.jpg"), "bare.jpg");
}

#[test]
fn image_extensions_recognized_case_insensitively() {
    assert!(is_image_file("/x/a.jpg"));
    assert!(is_image_file("/x/a.JPeG"));
    assert!(is_image_file("/x/a.WebP"));
    assert!(is_image_file("/x/a.svg"));
    assert!(!is_image_file("/x/a.txt"));
    assert!(!is_image_file("/x/a.mp4"));
    assert!(!is_image_file("/x/jpg"));
}

#[test]
fn video_extensions_recognized_case_insensitively() {
    assert!(is_video_file("/x/a.mp4"));
    assert!(is_video_file("/x/a.MKV"));
    assert!(is_video_file("/x/a.webm"));
    assert!(!is_video_file("/x/a.webp"));
    assert!(!is_video_file("/x/a.jpeg"));
}

#[test]
fn media_kind_follows_extension() {
    assert_eq!(media_kind_of("/x/a.png"), MediaKind::Image);
    assert_eq!(media_kind_of("/x/a.mov"), MediaKind::Video);
    assert_eq!(media_kind_of("/x/a.pdf"), MediaKind::Unknown);
}

#[test]
fn bookkeeping_directories_are_skipped() {
    assert!(should_skip_directory("/lib/.thumbnails"));
    assert!(should_skip_directory("/repo/node_modules/pkg"));
    assert!(should_skip_directory("/repo/.git"));
    assert!(should_skip_directory("/repo/.vscode"));
    assert!(!should_skip_directory("/lib/Sorted"));
}

#[test]
fn hidden_entries_carry_a_leading_dot() {
    assert!(is_hidden_entry("/lib/.cache"));
    assert!(is_hidden_entry(".hidden"));
    assert!(!is_hidden_entry("/lib/visible.jpg"));
    assert!(!is_hidden_entry("/lib.dir/visible"));
    assert!(!is_hidden_entry("/lib/"));
}

#[test]
fn db_path_sits_under_root() {
    assert_eq!(get_db_path("/media/library"), "/media/library/media_cache.db");
}

#[test]
fn thumbnails_only_for_images_and_videos() {
    assert!(matches!(thumbnail_source_kind("/x/a.gif"), Ok(MediaKind::Image)));
    assert!(matches!(thumbnail_source_kind("/x/a.avi"), Ok(MediaKind::Video)));
    let err = match thumbnail_source_kind("/x/report.pdf") {
        Ok(_) => panic!("a pdf has no thumbnail source"),
        Err(e) => e,
    };
    match &err {
        AppError::UnsupportedMediaError { path } => assert_eq!(path, "/x/report.pdf"),
        _ => panic!("expected an unsupported-media error"),
    }
    assert_eq!(err.message(), "unsupported media file: /x/report.pdf");
}

#[test]
fn error_messages_name_the_kind() {
    let e = AppError::IoError {
        detail: "open failed".to_string(),
    };
    assert_eq!(e.message(), "I/O error: open failed");
    let e = AppError::StorageError {
        detail: "locked".to_string(),
    };
    assert_eq!(e.message(), "storage error: locked");
    let e = AppError::HashError {
        detail: "short read".to_string(),
    };
    assert_eq!(e.message(), "hash error: short read");
    let e = AppError::EncodingError {
        detail: "no output".to_string(),
    };
    assert_eq!(e.message(), "encoding error: no output");
}

#[test]
fn config_projects_into_dto() {
    let cfg = AppConfig {
        library_root: Some("/media/library".to_string()),
    };
    let dto = AppConfigDto::from(cfg);
    assert_eq!(dto.library_root.as_deref(), Some("/media/library"));
    let fresh = AppConfig::default();
    assert!(fresh.library_root.is_none());
}
